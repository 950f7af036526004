//! Cache entries, the policy that governs them, and how a value is wrapped
//! into an entry and read back out of it.

use vstd::prelude::*;
use crate::bytes::{bytes_contain, contains_bytes, copy_bytes};
use crate::codec::{compress, decompress, lemma_decode_encode, rle_decode, rle_encode};

verus! {

/// The three storage levels, fastest first.
#[derive(Clone, Copy, Debug, PartialEq, Eq, Structural)]
pub enum Tier {
    Fast,
    Secondary,
    Bulk,
}

/// How entries are ranked when a tier has to give some up.
#[derive(Clone, Copy, Debug, PartialEq, Eq, Structural)]
pub enum ReplacementStrategy {
    /// Least recently read or written goes first.
    RecencyOnly,
    /// Least often read goes first.
    FrequencyOnly,
    /// Lowest `access_count * priority` goes first.
    Composite,
    /// As `Composite`, with the product divided by the entry's idle time.
    TimeDecayedComposite,
}

/// What can go wrong with a cache operation.
#[derive(Clone, Copy, Debug, PartialEq, Eq, Structural)]
pub enum CacheError {
    /// A stored value could not be decoded.
    SerializationFailure,
    /// The fast tier is full and eviction could not make room.
    CapacityExceeded,
    /// The bulk tier is marked degraded.
    BackingStoreUnavailable,
}

/// The cache's governing parameters, fixed when the manager is built.
#[derive(Clone, Copy, Debug)]
pub struct CachePolicy {
    /// Idle time in seconds after which an entry's time-decayed score is zero.
    pub max_age: i64,
    /// The most entries the fast tier holds.
    pub max_entries: usize,
    /// The most entries one eviction pass removes.
    pub eviction_batch_size: usize,
    /// Fill level of the fast tier, in thousandths of `max_entries`, above
    /// which an insertion is followed by an eviction pass.
    pub memory_pressure_threshold: u32,
    /// The ranking used by eviction.
    pub strategy: ReplacementStrategy,
}

/// The configuration a cache manager is built from.
#[derive(Clone, Copy, Debug)]
pub struct CacheConfig {
    pub max_age_seconds: i64,
    pub max_entries: usize,
    pub eviction_batch_size: usize,
    /// In thousandths: 850 stands for 85%.
    pub memory_pressure_threshold: u32,
    pub strategy: ReplacementStrategy,
}

impl Default for CacheConfig {
    fn default() -> (c: Self)
        ensures
            c.max_age_seconds == 3600,
            c.max_entries == 10000,
            c.eviction_batch_size == 100,
            c.memory_pressure_threshold == 850,
            c.strategy == ReplacementStrategy::Composite,
    {
        CacheConfig {
            max_age_seconds: 3600,
            max_entries: 10000,
            eviction_batch_size: 100,
            memory_pressure_threshold: 850,
            strategy: ReplacementStrategy::Composite,
        }
    }
}

impl CachePolicy {
    /// The policy that a configuration describes.
    pub fn from_config(config: &CacheConfig) -> (p: Self)
        ensures
            p.max_age == config.max_age_seconds,
            p.max_entries == config.max_entries,
            p.eviction_batch_size == config.eviction_batch_size,
            p.memory_pressure_threshold == config.memory_pressure_threshold,
            p.strategy == config.strategy,
    {
        CachePolicy {
            max_age: config.max_age_seconds,
            max_entries: config.max_entries,
            eviction_batch_size: config.eviction_batch_size,
            memory_pressure_threshold: config.memory_pressure_threshold,
            strategy: config.strategy,
        }
    }

    /// The fast tier is under pressure at `len` entries: its fill level is
    /// above the threshold.
    pub open spec fn under_pressure(&self, len: nat) -> bool {
        len * 1000 > self.memory_pressure_threshold as nat * self.max_entries as nat
    }

    /// Decides whether `len` entries put the fast tier under pressure.
    pub fn is_under_pressure(&self, len: usize) -> (r: bool)
        ensures
            r == self.under_pressure(len as nat),
    {
        let threshold: u128 = self.memory_pressure_threshold as u128;
        let capacity: u128 = self.max_entries as u128;
        assert(threshold * capacity <= 0xffff_ffff * 0xffff_ffff_ffff_ffff) by (nonlinear_arith)
            requires
                0 <= threshold <= 0xffff_ffff,
                0 <= capacity <= 0xffff_ffff_ffff_ffff,
        ;
        let filled: u128 = (len as u128) * 1000u128;
        let limit: u128 = threshold * capacity;
        filled > limit
    }
}

/// One cached value with its bookkeeping.
#[derive(Clone, Debug)]
pub struct CacheEntry {
    /// The bytes as stored: run-length encoded where `compressed` is set.
    pub value: Vec<u8>,
    pub compressed: bool,
    /// Seconds since the epoch at which the entry was made.
    pub created_at: i64,
    /// Seconds since the epoch at which the entry was last read or written.
    pub last_accessed_at: i64,
    pub access_count: u64,
    pub priority: u8,
    /// Length of the value before encoding.
    pub original_size: usize,
    /// Length of `value`.
    pub stored_size: usize,
}

/// A cache entry as a mathematical value.
pub struct EntryModel {
    pub value: Seq<u8>,
    pub compressed: bool,
    pub created_at: i64,
    pub last_accessed_at: i64,
    pub access_count: u64,
    pub priority: u8,
    pub original_size: usize,
    pub stored_size: usize,
}

impl View for CacheEntry {
    type V = EntryModel;

    open spec fn view(&self) -> EntryModel {
        EntryModel {
            value: self.value@,
            compressed: self.compressed,
            created_at: self.created_at,
            last_accessed_at: self.last_accessed_at,
            access_count: self.access_count,
            priority: self.priority,
            original_size: self.original_size,
            stored_size: self.stored_size,
        }
    }
}

/// Values longer than this are offered to the codec.
pub const COMPRESSION_THRESHOLD: usize = 256;

/// Stored sizes below this earn an entry one priority point.
pub const SMALL_VALUE_LIMIT: usize = 1024;

/// The key prefix of technical terms, which earn two priority points:
/// `technical_`.
pub open spec fn technical_marker() -> Seq<u8> {
    seq![116u8, 101u8, 99u8, 104u8, 110u8, 105u8, 99u8, 97u8, 108u8, 95u8]
}

impl EntryModel {
    /// The sizes recorded in the entry agree with what it holds, and a
    /// compressed entry is no larger than its original.
    pub open spec fn well_formed(self) -> bool {
        &&& self.stored_size == self.value.len()
        &&& self.compressed ==> self.stored_size <= self.original_size
        &&& !self.compressed ==> self.stored_size == self.original_size
    }

    /// The value the entry stands for, or `None` where its bytes do not
    /// decode to a value of the recorded original size.
    pub open spec fn payload(self) -> Option<Seq<u8>> {
        if !self.compressed {
            Some(self.value)
        } else {
            match rle_decode(self.value) {
                Some(v) => if v.len() == self.original_size {
                    Some(v)
                } else {
                    None
                },
                None => None,
            }
        }
    }

    /// The same entry after one more read at time `now`.
    pub open spec fn touched(self, now: i64) -> EntryModel {
        EntryModel {
            last_accessed_at: now,
            access_count: if self.access_count < u64::MAX {
                (self.access_count + 1) as u64
            } else {
                self.access_count
            },
            ..self
        }
    }
}

/// Whether `value` is stored compressed: it is long enough to try, and its
/// encoding is shorter than itself.
pub open spec fn stores_compressed(value: Seq<u8>) -> bool {
    value.len() > COMPRESSION_THRESHOLD && rle_encode(value).len() < value.len()
}

/// The bytes under which `value` is stored.
pub open spec fn stored_bytes(value: Seq<u8>) -> Seq<u8> {
    if stores_compressed(value) {
        rle_encode(value)
    } else {
        value
    }
}

/// The priority of an entry under `key` whose stored bytes have length
/// `stored_len`: two points for a technical key, one for a small value.
pub open spec fn priority_of(key: Seq<u8>, stored_len: nat) -> u8 {
    let by_key: u8 = if contains_bytes(key, technical_marker()) {
        2
    } else {
        0
    };
    let by_size: u8 = if stored_len < SMALL_VALUE_LIMIT {
        1
    } else {
        0
    };
    (by_key + by_size) as u8
}

/// The entry that a write of `value` under `key` at time `now` makes.
pub open spec fn fresh_entry(key: Seq<u8>, value: Seq<u8>, now: i64) -> EntryModel {
    let stored = stored_bytes(value);
    EntryModel {
        value: stored,
        compressed: stores_compressed(value),
        created_at: now,
        last_accessed_at: now,
        access_count: 1,
        priority: priority_of(key, stored.len()),
        original_size: value.len() as usize,
        stored_size: stored.len() as usize,
    }
}

/// The entry that a promotion at time `now` makes of `source`, whose
/// payload is `payload`: the value uncompressed, the count one higher, the
/// priority kept.
pub open spec fn promoted_entry(source: EntryModel, payload: Seq<u8>, now: i64) -> EntryModel {
    EntryModel {
        value: payload,
        compressed: false,
        created_at: now,
        last_accessed_at: now,
        access_count: if source.access_count < u64::MAX {
            (source.access_count + 1) as u64
        } else {
            source.access_count
        },
        priority: source.priority,
        original_size: payload.len() as usize,
        stored_size: payload.len() as usize,
    }
}

/// A fresh entry is well formed and stands for the value it was made from.
pub proof fn lemma_fresh_entry_round_trip(key: Seq<u8>, value: Seq<u8>, now: i64)
    requires
        value.len() <= usize::MAX,
    ensures
        fresh_entry(key, value, now).well_formed(),
        fresh_entry(key, value, now).payload() == Some(value),
{
    lemma_decode_encode(value);
}

/// Computes the priority of an entry from its key and stored size.
pub fn calculate_priority(key: &[u8], stored_len: usize) -> (p: u8)
    ensures
        p == priority_of(key@, stored_len as nat),
{
    let marker: [u8; 10] = [116u8, 101u8, 99u8, 104u8, 110u8, 105u8, 99u8, 97u8, 108u8, 95u8];
    assert(marker@ =~= technical_marker());
    let mut p: u8 = 0;
    if bytes_contain(key, marker.as_slice()) {
        p = p + 2;
    }
    if stored_len < SMALL_VALUE_LIMIT {
        p = p + 1;
    }
    p
}

impl CacheEntry {
    /// Wraps `value` for storage under `key` at time `now`.
    pub fn new(key: &[u8], value: &[u8], now: i64) -> (e: Self)
        ensures
            e@ == fresh_entry(key@, value@, now),
            e@.well_formed(),
            e@.payload() == Some(value@),
    {
        let original_size: usize = value.len();
        proof {
            lemma_fresh_entry_round_trip(key@, value@, now);
        }
        let mut stored: Vec<u8> = copy_bytes(value);
        let mut compressed: bool = false;
        if value.len() > COMPRESSION_THRESHOLD {
            let packed: Vec<u8> = compress(value);
            if packed.len() < value.len() {
                stored = packed;
                compressed = true;
            }
        }
        let stored_size: usize = stored.len();
        CacheEntry {
            value: stored,
            compressed,
            created_at: now,
            last_accessed_at: now,
            access_count: 1,
            priority: calculate_priority(key, stored_size),
            original_size,
            stored_size,
        }
    }

    /// Reads the value back out of the entry. Fails where the stored bytes
    /// do not decode to a value of the recorded original size.
    pub fn decode(&self) -> (r: Result<Vec<u8>, CacheError>)
        ensures
            match r {
                Ok(v) => self@.payload() == Some(v@),
                Err(e) => e == CacheError::SerializationFailure && self@.payload() is None,
            },
    {
        if !self.compressed {
            Ok(copy_bytes(self.value.as_slice()))
        } else {
            match decompress(self.value.as_slice()) {
                Some(v) => {
                    if v.len() == self.original_size {
                        Ok(v)
                    } else {
                        Err(CacheError::SerializationFailure)
                    }
                },
                None => Err(CacheError::SerializationFailure),
            }
        }
    }

    /// The entry after one more read at time `now`.
    pub fn touch(&self, now: i64) -> (e: Self)
        ensures
            e@ == self@.touched(now),
    {
        CacheEntry {
            value: copy_bytes(self.value.as_slice()),
            compressed: self.compressed,
            created_at: self.created_at,
            last_accessed_at: now,
            access_count: if self.access_count < u64::MAX {
                self.access_count + 1
            } else {
                self.access_count
            },
            priority: self.priority,
            original_size: self.original_size,
            stored_size: self.stored_size,
        }
    }

    /// The entry that promotion makes of this one, given its decoded value.
    pub fn promote(&self, payload: Vec<u8>, now: i64) -> (e: Self)
        ensures
            e@ == promoted_entry(self@, payload@, now),
            e@.well_formed(),
            e@.payload() == Some(payload@),
    {
        let size: usize = payload.len();
        CacheEntry {
            value: payload,
            compressed: false,
            created_at: now,
            last_accessed_at: now,
            access_count: if self.access_count < u64::MAX {
                self.access_count + 1
            } else {
                self.access_count
            },
            priority: self.priority,
            original_size: size,
            stored_size: size,
        }
    }

    /// A copy of the entry.
    pub fn duplicate(&self) -> (e: Self)
        ensures
            e@ == self@,
    {
        CacheEntry {
            value: copy_bytes(self.value.as_slice()),
            compressed: self.compressed,
            created_at: self.created_at,
            last_accessed_at: self.last_accessed_at,
            access_count: self.access_count,
            priority: self.priority,
            original_size: self.original_size,
            stored_size: self.stored_size,
        }
    }
}

} // verus!
