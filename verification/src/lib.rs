//! The core of a Hebrew-Russian translation service.
//!
//! Its heart is an adaptive optimization layer: a three-tier cache with a
//! deterministic eviction order (`cache`, over `codec` and `bytes`), a load
//! balancer with interchangeable selection strategies (`balancer`), a
//! metrics sampler (`sampler`, `collector`), and the coordinator that owns
//! the three (`optimization`).
//!
//! Around it stand the parts of the translation pipeline that work on text
//! alone: the catalogue of language resources (`resources`), the subword
//! tokenizer (`tokenizer`), the translation engine's bookkeeping
//! (`translation`), error analysis and the counts behind the scores
//! (`evaluation`, `scoring`), suggestions (`quality_control`), feedback
//! (`feedback`) and the rules on files (`files`).
//!
//! Fractions are fixed-point numbers throughout; time is an argument.

pub mod balancer;
pub mod bytes;
pub mod cache;
pub mod codec;
pub mod collector;
pub mod evaluation;
pub mod feedback;
pub mod files;
pub mod optimization;
pub mod quality_control;
pub mod resources;
pub mod sampler;
pub mod scoring;
pub mod text;
pub mod text_map;
pub mod tokenizer;
pub mod translation;
