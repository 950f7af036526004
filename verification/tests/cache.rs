use translator_core::bytes::{bytes_contain, bytes_equal, bytes_less};
use translator_core::cache::entry::{
    calculate_priority, CacheConfig, CacheEntry, CacheError, CachePolicy, ReplacementStrategy, Tier,
};
use translator_core::cache::eviction::{leaves_first, score_entry};
use translator_core::cache::manager::{capped_add, HybridCacheManager};
use translator_core::codec::{compress, decompress};

fn config(max_entries: usize, batch: usize, threshold: u32) -> CacheConfig {
    CacheConfig {
        max_age_seconds: 3600,
        max_entries,
        eviction_batch_size: batch,
        memory_pressure_threshold: threshold,
        strategy: ReplacementStrategy::Composite,
    }
}

fn policy(strategy: ReplacementStrategy) -> CachePolicy {
    CachePolicy {
        max_age: 100,
        max_entries: 10,
        eviction_batch_size: 1,
        memory_pressure_threshold: 1000,
        strategy,
    }
}

fn incompressible(len: usize) -> Vec<u8> {
    (0..len).map(|i| (i % 251) as u8).collect()
}

#[test]
fn codec_takes_the_longest_runs() {
    assert_eq!(compress(&[]), Vec::<u8>::new());
    assert_eq!(compress(&[7, 7, 7, 1]), vec![3, 7, 1, 1]);
    assert_eq!(compress(&[5]), vec![1, 5]);
    let long = vec![9u8; 300];
    assert_eq!(compress(&long), vec![255, 9, 45, 9]);
}

#[test]
fn codec_round_trips() {
    for value in [vec![], vec![0u8], vec![1, 1, 2, 2, 2, 3], vec![4u8; 1000], incompressible(700)] {
        assert_eq!(decompress(&compress(&value)), Some(value));
    }
}

#[test]
fn codec_rejects_what_is_no_encoding() {
    assert_eq!(decompress(&[3]), None);
    assert_eq!(decompress(&[3, 7, 1]), None);
    assert_eq!(decompress(&[0, 7]), None);
    assert_eq!(decompress(&[2, 7, 0, 1]), None);
    assert_eq!(decompress(&[2, 7, 1, 8]), Some(vec![7, 7, 8]));
}

#[test]
fn byte_strings_are_ordered_lexicographically() {
    assert!(bytes_less(b"", b"a"));
    assert!(bytes_less(b"a", b"ab"));
    assert!(bytes_less(b"ab", b"b"));
    assert!(!bytes_less(b"b", b"ab"));
    assert!(!bytes_less(b"abc", b"abc"));
    assert!(bytes_equal(b"abc", b"abc"));
    assert!(!bytes_equal(b"abc", b"abd"));
    assert!(!bytes_equal(b"abc", b"ab"));
    assert!(bytes_contain(b"my_technical_key", b"technical_"));
    assert!(bytes_contain(b"abc", b""));
    assert!(!bytes_contain(b"technical", b"technical_"));
    assert!(!bytes_contain(b"ab", b"abc"));
}

#[test]
fn priority_follows_key_and_stored_size() {
    assert_eq!(calculate_priority(b"plain", 2000), 0);
    assert_eq!(calculate_priority(b"plain", 10), 1);
    assert_eq!(calculate_priority(b"plain", 1023), 1);
    assert_eq!(calculate_priority(b"plain", 1024), 0);
    assert_eq!(calculate_priority(b"technical_term", 2000), 2);
    assert_eq!(calculate_priority(b"x_technical_term", 10), 3);
}

#[test]
fn entries_compress_only_when_it_pays() {
    let small = CacheEntry::new(b"k", &[1u8; 100], 5);
    assert!(!small.compressed);
    assert_eq!(small.stored_size, 100);
    assert_eq!(small.original_size, 100);
    assert_eq!(small.access_count, 1);
    assert_eq!(small.created_at, 5);
    assert_eq!(small.last_accessed_at, 5);
    let big = CacheEntry::new(b"k", &[1u8; 2000], 5);
    assert!(big.compressed);
    assert_eq!(big.original_size, 2000);
    assert_eq!(big.stored_size, 16);
    assert_eq!(big.priority, 1);
    assert_eq!(big.decode(), Ok(vec![1u8; 2000]));
    let noisy = CacheEntry::new(b"k", &incompressible(2000), 5);
    assert!(!noisy.compressed);
    assert_eq!(noisy.stored_size, 2000);
    assert_eq!(noisy.priority, 0);
    assert_eq!(noisy.decode(), Ok(incompressible(2000)));
}

#[test]
fn corrupt_entries_do_not_decode() {
    let mut e = CacheEntry::new(b"k", &[1u8; 2000], 5);
    e.original_size = 1999;
    assert_eq!(e.decode(), Err(CacheError::SerializationFailure));
    let mut f = CacheEntry::new(b"k", &[1u8; 2000], 5);
    f.value = vec![3];
    assert_eq!(f.decode(), Err(CacheError::SerializationFailure));
}

#[test]
fn scores_follow_the_strategy() {
    let mut e = CacheEntry::new(b"technical_k", b"v", 50);
    e.access_count = 4;
    assert_eq!(e.priority, 3);
    assert_eq!(score_entry(&e, &policy(ReplacementStrategy::RecencyOnly), 60), 50);
    assert_eq!(score_entry(&e, &policy(ReplacementStrategy::FrequencyOnly), 60), 4);
    assert_eq!(score_entry(&e, &policy(ReplacementStrategy::Composite), 60), 12);
    assert_eq!(score_entry(&e, &policy(ReplacementStrategy::TimeDecayedComposite), 50), 12);
    assert_eq!(score_entry(&e, &policy(ReplacementStrategy::TimeDecayedComposite), 52), 4);
    assert_eq!(score_entry(&e, &policy(ReplacementStrategy::TimeDecayedComposite), 40), 12);
    assert_eq!(score_entry(&e, &policy(ReplacementStrategy::TimeDecayedComposite), 150), 0);
    assert_eq!(score_entry(&e, &policy(ReplacementStrategy::TimeDecayedComposite), 151), 0);
}

#[test]
fn eviction_order_breaks_ties_by_key() {
    let a = CacheEntry::new(b"a", b"v", 1);
    let b = CacheEntry::new(b"b", b"v", 1);
    let p = policy(ReplacementStrategy::Composite);
    assert!(leaves_first(b"a", &a, b"b", &b, &p, 1));
    assert!(!leaves_first(b"b", &b, b"a", &a, &p, 1));
    assert!(!leaves_first(b"a", &a, b"a", &a, &p, 1));
    let strong = CacheEntry::new(b"technical_a", b"v", 1);
    assert!(leaves_first(b"b", &b, b"technical_a", &strong, &p, 1));
    assert!(!leaves_first(b"technical_a", &strong, b"b", &b, &p, 1));
}

#[test]
fn set_then_get_returns_the_value() {
    let mut cache = HybridCacheManager::new(CacheConfig::default());
    for value in [b"hello".to_vec(), vec![], vec![3u8; 5000], incompressible(5000)] {
        assert_eq!(cache.set(b"key", &value, 10), Ok(()));
        assert_eq!(cache.get(b"key", 11), Some(value));
    }
    assert_eq!(cache.get(b"other", 11), None);
    let counters = cache.counters();
    assert_eq!(counters.fast_hits, 4);
    assert_eq!(counters.misses, 1);
}

#[test]
fn get_counts_accesses_and_keeps_priority() {
    let mut cache = HybridCacheManager::new(CacheConfig::default());
    cache.set(b"technical_k", b"v", 10).unwrap();
    assert_eq!(cache.get(b"technical_k", 20), Some(b"v".to_vec()));
    assert_eq!(cache.get(b"technical_k", 30), Some(b"v".to_vec()));
    let e = cache.peek(Tier::Fast, b"technical_k").unwrap();
    assert_eq!(e.access_count, 3);
    assert_eq!(e.last_accessed_at, 30);
    assert_eq!(e.created_at, 10);
    assert_eq!(e.priority, 3);
}

#[test]
fn eviction_removes_the_lowest_priority_first() {
    let mut cache = HybridCacheManager::new(config(2, 1, 1000));
    cache.set(b"one", b"small", 1).unwrap();
    cache.set(b"technical_two", &incompressible(2000), 2).unwrap();
    assert_eq!(cache.peek(Tier::Fast, b"one").unwrap().priority, 1);
    assert_eq!(cache.peek(Tier::Fast, b"technical_two").unwrap().priority, 2);
    cache.set(b"technical_three", b"small", 3).unwrap();
    assert_eq!(cache.peek(Tier::Fast, b"technical_three").unwrap().priority, 3);
    assert!(!cache.holds(Tier::Fast, b"one"));
    assert!(cache.holds(Tier::Fast, b"technical_two"));
    assert!(cache.holds(Tier::Fast, b"technical_three"));
    assert_eq!(cache.tier_len(Tier::Fast), 2);
    assert_eq!(cache.counters().evictions, 1);
    assert_eq!(cache.get(b"one", 4), None);
}

#[test]
fn eviction_takes_no_more_than_the_batch() {
    let mut cache = HybridCacheManager::new(config(10, 3, 500));
    for i in 0..5u8 {
        cache.set(&[b'k', i], b"v", 1).unwrap();
    }
    assert_eq!(cache.tier_len(Tier::Fast), 5);
    cache.set(b"k5", b"v", 1).unwrap();
    assert_eq!(cache.tier_len(Tier::Fast), 3);
    assert_eq!(cache.counters().evictions, 3);
    assert!(cache.holds(Tier::Fast, b"k5"));
    assert!(!cache.holds(Tier::Fast, &[b'k', 0]));
    assert!(!cache.holds(Tier::Fast, &[b'k', 1]));
    assert!(!cache.holds(Tier::Fast, &[b'k', 2]));
    assert!(cache.holds(Tier::Fast, &[b'k', 3]));
    assert!(cache.holds(Tier::Fast, &[b'k', 4]));
}

#[test]
fn a_written_key_is_ranked_in_the_pass_it_causes() {
    let mut cache = HybridCacheManager::new(config(4, 1, 500));
    cache.set(b"technical_b", b"v", 1).unwrap();
    cache.set(b"technical_c", b"v", 1).unwrap();
    assert_eq!(cache.set(b"a", &incompressible(2000), 1), Ok(()));
    assert!(!cache.holds(Tier::Fast, b"a"));
    assert_eq!(cache.tier_len(Tier::Fast), 2);
    assert!(cache.holds(Tier::Fast, b"technical_b"));
    assert!(cache.holds(Tier::Fast, b"technical_c"));
    assert_eq!(cache.counters().evictions, 1);
    assert_eq!(cache.get(b"a", 2), None);
    assert_eq!(cache.set(b"technical_d", b"v", 3), Ok(()));
    assert!(cache.holds(Tier::Fast, b"technical_d"));
    assert!(!cache.holds(Tier::Fast, b"technical_b"));
    assert!(cache.holds(Tier::Fast, b"technical_c"));
}

#[test]
fn a_pass_after_a_write_takes_the_whole_batch() {
    let mut cache = HybridCacheManager::new(config(4, 2, 0));
    assert_eq!(cache.set(b"only", b"v", 1), Ok(()));
    assert_eq!(cache.tier_len(Tier::Fast), 0);
    assert_eq!(cache.counters().evictions, 1);
    let mut other = HybridCacheManager::new(config(4, 2, 250));
    other.set(b"technical_kept", b"v", 1).unwrap();
    assert_eq!(other.tier_len(Tier::Fast), 1);
    other.set(b"plain", &incompressible(2000), 2).unwrap();
    assert_eq!(other.tier_len(Tier::Fast), 0);
    assert_eq!(other.counters().evictions, 2);
}

#[test]
fn the_default_threshold_relieves_a_small_tier_early() {
    let mut cache = HybridCacheManager::new(config(2, 1, 850));
    cache.set(b"one", b"small", 1).unwrap();
    cache.set(b"technical_two", &incompressible(2000), 2).unwrap();
    assert!(!cache.holds(Tier::Fast, b"one"));
    assert!(cache.holds(Tier::Fast, b"technical_two"));
}

#[test]
fn evict_if_needed_runs_only_under_pressure() {
    let mut cache = HybridCacheManager::new(config(4, 2, 1000));
    cache.set(b"a", b"v", 1).unwrap();
    cache.set(b"b", b"v", 1).unwrap();
    assert_eq!(cache.evict_if_needed(2), 0);
    assert_eq!(cache.tier_len(Tier::Fast), 2);
    let mut tight = HybridCacheManager::new(config(4, 2, 1000));
    tight.store_in_tier(Tier::Fast, b"a", b"v", 1).unwrap();
    assert_eq!(tight.evict_if_needed(2), 0);
}

#[test]
fn all_writes_that_fit_are_kept() {
    let mut cache = HybridCacheManager::new(config(50, 5, 1000));
    for i in 0..50u8 {
        assert_eq!(cache.set(&[i], &[i, i], 1), Ok(()));
    }
    for i in 0..50u8 {
        assert_eq!(cache.get(&[i], 2), Some(vec![i, i]));
    }
    assert_eq!(cache.counters().evictions, 0);
}

#[test]
fn a_full_tier_without_eviction_refuses_new_keys() {
    let mut cache = HybridCacheManager::new(config(1, 0, 1000));
    assert_eq!(cache.set(b"a", b"1", 1), Ok(()));
    assert_eq!(cache.set(b"b", b"2", 1), Err(CacheError::CapacityExceeded));
    assert_eq!(cache.set(b"a", b"3", 1), Ok(()));
    assert_eq!(cache.get(b"a", 2), Some(b"3".to_vec()));
    assert_eq!(cache.get(b"b", 2), None);
    let mut none = HybridCacheManager::new(config(0, 5, 1000));
    assert_eq!(none.set(b"a", b"1", 1), Err(CacheError::CapacityExceeded));
}

#[test]
fn a_bulk_hit_is_promoted_to_the_faster_tiers() {
    let mut cache = HybridCacheManager::new(CacheConfig::default());
    cache.store_in_tier(Tier::Bulk, b"k", &vec![8u8; 3000], 1).unwrap();
    assert!(cache.peek(Tier::Bulk, b"k").unwrap().compressed);
    assert!(!cache.holds(Tier::Fast, b"k"));
    assert_eq!(cache.get(b"k", 5), Some(vec![8u8; 3000]));
    assert_eq!(cache.counters().bulk_hits, 1);
    assert_eq!(cache.counters().promotions, 1);
    assert!(cache.holds(Tier::Fast, b"k"));
    assert!(cache.holds(Tier::Secondary, b"k"));
    assert!(cache.holds(Tier::Bulk, b"k"));
    let promoted = cache.peek(Tier::Fast, b"k").unwrap();
    assert!(!promoted.compressed);
    assert_eq!(promoted.access_count, 2);
    assert_eq!(promoted.created_at, 5);
    assert_eq!(promoted.stored_size, 3000);
    assert_eq!(cache.get(b"k", 6), Some(vec![8u8; 3000]));
    assert_eq!(cache.counters().bulk_hits, 1);
    assert_eq!(cache.counters().promotions, 1);
    assert_eq!(cache.counters().fast_hits, 1);
}

#[test]
fn a_secondary_hit_is_promoted_to_the_fast_tier() {
    let mut cache = HybridCacheManager::new(CacheConfig::default());
    cache.store_in_tier(Tier::Secondary, b"k", b"value", 1).unwrap();
    assert_eq!(cache.get(b"k", 5), Some(b"value".to_vec()));
    assert_eq!(cache.counters().secondary_hits, 1);
    assert_eq!(cache.counters().promotions, 1);
    assert!(cache.holds(Tier::Fast, b"k"));
    assert!(!cache.holds(Tier::Bulk, b"k"));
}

#[test]
fn a_promoted_entry_survives_the_pass_it_causes() {
    let mut cache = HybridCacheManager::new(config(2, 1, 1000));
    cache.set(b"technical_a", b"v", 1).unwrap();
    cache.set(b"technical_b", b"v", 1).unwrap();
    cache.store_in_tier(Tier::Bulk, b"low", &incompressible(2000), 1).unwrap();
    assert_eq!(cache.get(b"low", 2), Some(incompressible(2000)));
    assert!(cache.holds(Tier::Fast, b"low"));
    assert!(!cache.holds(Tier::Fast, b"technical_a"));
    assert!(cache.holds(Tier::Fast, b"technical_b"));
}

#[test]
fn a_degraded_bulk_tier_is_bypassed() {
    let mut cache = HybridCacheManager::new(CacheConfig::default());
    cache.store_in_tier(Tier::Bulk, b"k", b"v", 1).unwrap();
    cache.mark_bulk_degraded();
    assert!(cache.is_degraded());
    assert_eq!(cache.get(b"k", 2), None);
    assert_eq!(
        cache.store_in_tier(Tier::Bulk, b"x", b"v", 2),
        Err(CacheError::BackingStoreUnavailable)
    );
    assert_eq!(cache.set(b"k", b"new", 3), Ok(()));
    assert_eq!(cache.peek(Tier::Bulk, b"k").unwrap().decode(), Ok(b"v".to_vec()));
    cache.mark_bulk_recovered();
    assert_eq!(cache.get(b"k", 4), Some(b"new".to_vec()));
    assert_eq!(cache.store_in_tier(Tier::Bulk, b"x", b"v", 5), Ok(()));
}

#[test]
fn set_drops_stale_copies_below() {
    let mut cache = HybridCacheManager::new(CacheConfig::default());
    cache.store_in_tier(Tier::Secondary, b"k", b"old", 1).unwrap();
    cache.store_in_tier(Tier::Bulk, b"k", b"older", 1).unwrap();
    cache.set(b"k", b"new", 2).unwrap();
    assert!(!cache.holds(Tier::Secondary, b"k"));
    assert!(!cache.holds(Tier::Bulk, b"k"));
    assert_eq!(cache.get(b"k", 3), Some(b"new".to_vec()));
}

#[test]
fn recency_only_evicts_the_oldest_access() {
    let mut cfg = config(2, 1, 1000);
    cfg.strategy = ReplacementStrategy::RecencyOnly;
    let mut cache = HybridCacheManager::new(cfg);
    cache.set(b"technical_old", b"v", 1).unwrap();
    cache.set(b"new", b"v", 5).unwrap();
    cache.get(b"technical_old", 9);
    cache.set(b"third", b"v", 10).unwrap();
    assert!(cache.holds(Tier::Fast, b"technical_old"));
    assert!(!cache.holds(Tier::Fast, b"new"));
}

#[test]
fn frequency_only_evicts_the_least_read() {
    let mut cfg = config(2, 1, 1000);
    cfg.strategy = ReplacementStrategy::FrequencyOnly;
    let mut cache = HybridCacheManager::new(cfg);
    cache.set(b"technical_rare", b"v", 1).unwrap();
    cache.set(b"often", b"v", 1).unwrap();
    cache.get(b"often", 2);
    cache.set(b"third", b"v", 3).unwrap();
    assert!(!cache.holds(Tier::Fast, b"technical_rare"));
    assert!(cache.holds(Tier::Fast, b"often"));
}

#[test]
fn the_default_configuration() {
    let c = CacheConfig::default();
    assert_eq!(c.max_age_seconds, 3600);
    assert_eq!(c.max_entries, 10000);
    assert_eq!(c.eviction_batch_size, 100);
    assert_eq!(c.memory_pressure_threshold, 850);
    assert_eq!(c.strategy, ReplacementStrategy::Composite);
    let p = CachePolicy::from_config(&c);
    assert!(!p.is_under_pressure(8500));
    assert!(p.is_under_pressure(8501));
}

#[test]
fn counters_stop_at_the_maximum() {
    assert_eq!(capped_add(5, 7), 12);
    assert_eq!(capped_add(u64::MAX - 1, 1), u64::MAX);
    assert_eq!(capped_add(u64::MAX - 1, 2), u64::MAX);
    assert_eq!(capped_add(u64::MAX, 0), u64::MAX);
}
