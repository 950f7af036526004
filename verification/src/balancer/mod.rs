//! The load balancer: server records, load history, the selection
//! strategies and the balancer that applies them.

pub mod server;
pub mod registry;
pub mod predictor;
pub mod strategy;
pub mod dispatch;
