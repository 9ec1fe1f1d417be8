//! The cache and payload deduplication.

use bytes::Bytes;
use nexusnet::cache::{DedupStore, Deduplicator, Digest, LruCache, Reference};
use nexusnet::ratio::Ratio;
use nexusnet::time::{Clock, Duration, Instant};

#[test]
fn identical_content_hashes_identically() {
    let a = Digest::of(b"the same bytes");
    let b = Digest::of(b"the same bytes");
    assert_eq!(a, b);
}

#[test]
fn different_content_hashes_differently() {
    assert_ne!(Digest::of(b"alpha"), Digest::of(b"beta"));
    assert_ne!(Digest::of(b""), Digest::of(b"\0"));
    // Transpositions must change the digest, which a plain sum would not.
    assert_ne!(Digest::of(b"ab"), Digest::of(b"ba"));
}

#[test]
fn digests_survive_a_wire_round_trip() {
    let digest = Digest::of(b"payload");
    assert_eq!(Digest::from_bytes(digest.to_bytes()), digest);
    assert_eq!(digest.to_string().len(), 32);
}

#[test]
fn digest_spreads_across_the_full_width() {
    // A padded 64-bit hash would leave one half constant across inputs.
    let mut high_bits = std::collections::HashSet::new();
    let mut low_bits = std::collections::HashSet::new();

    for i in 0..64_u32 {
        let value = Digest::of(&i.to_be_bytes()).as_u128();
        high_bits.insert((value >> 64) as u64);
        low_bits.insert(value as u64);
    }

    assert!(high_bits.len() > 60, "high half barely varies");
    assert!(low_bits.len() > 60, "low half barely varies");
}

#[test]
fn repeated_payloads_are_deduplicated() {
    let mut dedup = Deduplicator::new(16);
    let payload = Bytes::from(vec![b'x'; 1000]);

    let first = dedup.offer(payload.clone());
    assert!(!first.is_cached());
    assert_eq!(first.bytes_saved(), 0);

    let second = dedup.offer(payload.clone());
    assert!(second.is_cached());
    assert_eq!(second.bytes_saved(), 1000 - 16);
    assert_eq!(second.wire_len(), 16);

    let stats = dedup.stats();
    assert_eq!(stats.offered, 2);
    assert_eq!(stats.deduplicated, 1);
    assert_eq!(stats.dedup_ratio(), Ratio::new(1, 2));
}

#[test]
fn small_payloads_are_not_deduplicated() {
    let mut dedup = Deduplicator::new(16);
    let tiny = Bytes::from_static(b"ok");

    assert!(!dedup.offer(tiny.clone()).is_cached());
    assert!(
        !dedup.offer(tiny).is_cached(),
        "a digest is not smaller than a two-byte payload"
    );
}

#[test]
fn distinct_payloads_are_not_confused() {
    let mut dedup = Deduplicator::new(16);
    let first = Bytes::from(vec![b'a'; 200]);
    let second = Bytes::from(vec![b'b'; 200]);

    assert!(!dedup.offer(first).is_cached());
    assert!(!dedup.offer(second).is_cached());
    assert_eq!(dedup.stats().deduplicated, 0);
}

#[test]
fn resetting_forgets_everything() {
    let mut dedup = Deduplicator::new(16);
    let payload = Bytes::from(vec![b'z'; 500]);

    dedup.offer(payload.clone());
    assert!(dedup.offer(payload.clone()).is_cached());

    dedup.reset();
    assert!(
        !dedup.offer(payload).is_cached(),
        "after a reset the peer is assumed to hold nothing"
    );
}

#[test]
fn the_store_resolves_both_kinds_of_reference() {
    let mut dedup = Deduplicator::new(16);
    let mut store = DedupStore::new();
    let payload = Bytes::from(vec![b'q'; 300]);

    let first = dedup.offer(payload.clone());
    assert_eq!(store.resolve(&first), Some(payload.clone()));

    let second = dedup.offer(payload.clone());
    assert!(second.is_cached());
    assert_eq!(
        store.resolve(&second),
        Some(payload),
        "a cached reference resolves from what was stored earlier"
    );
}

#[test]
fn a_stale_reference_reports_a_miss() {
    let mut dedup = Deduplicator::new(16);
    let mut store = DedupStore::new();
    let payload = Bytes::from(vec![b'r'; 300]);

    dedup.offer(payload.clone());
    let cached = dedup.offer(payload);

    // The receiver restarted and lost its store.
    store.clear();
    assert_eq!(
        store.resolve(&cached),
        None,
        "a miss must be reported so the sender can resend"
    );
}

#[test]
fn capacity_bounds_what_is_remembered() {
    let mut dedup = Deduplicator::new(2);

    for i in 0..5_u8 {
        dedup.offer(Bytes::from(vec![i; 200]));
    }

    assert!(
        dedup.stats().remembered <= 2,
        "tracked {} exceeds capacity",
        dedup.stats().remembered
    );
}

fn cache(max: usize) -> LruCache<String, Vec<u8>> {
    LruCache::new(max)
}

#[test]
fn stores_and_retrieves() {
    let mut cache = cache(4);
    cache.insert("key".to_owned(), vec![1, 2, 3]);

    assert_eq!(cache.get(&"key".to_owned()), Some(&vec![1, 2, 3]));
    assert_eq!(cache.stats().hits, 1);
    assert_eq!(cache.stats().misses, 0);
}

#[test]
fn reports_misses() {
    let mut cache = cache(4);
    assert!(cache.get(&"absent".to_owned()).is_none());
    assert_eq!(cache.stats().misses, 1);
    assert_eq!(cache.stats().hit_ratio(), Ratio::new(0, 1));
}

#[test]
fn evicts_least_recently_used() {
    let mut cache = cache(2);
    cache.insert("a".to_owned(), vec![1]);
    cache.insert("b".to_owned(), vec![2]);

    // Touch "a" so "b" becomes the eviction candidate.
    assert!(cache.get(&"a".to_owned()).is_some());
    cache.insert("c".to_owned(), vec![3]);

    assert!(cache.contains_key(&"a".to_owned()));
    assert!(!cache.contains_key(&"b".to_owned()));
    assert!(cache.contains_key(&"c".to_owned()));
    assert_eq!(cache.stats().evictions, 1);
}

#[test]
fn replacing_a_key_does_not_double_count_bytes() {
    let mut cache = cache(4);
    cache.insert("k".to_owned(), vec![0; 100]);
    assert_eq!(cache.bytes(), 100);

    let previous = cache.insert("k".to_owned(), vec![0; 30]);
    assert_eq!(previous, Some(vec![0; 100]));
    assert_eq!(cache.bytes(), 30, "the old weight must be released");
}

#[test]
fn byte_capacity_is_enforced() {
    let mut cache = LruCache::<String, Vec<u8>>::new(100).with_max_bytes(250);

    cache.insert("a".to_owned(), vec![0; 100]);
    cache.insert("b".to_owned(), vec![0; 100]);
    assert_eq!(cache.bytes(), 200);

    // Exceeding the byte budget evicts even though the entry count is fine.
    cache.insert("c".to_owned(), vec![0; 100]);
    assert!(cache.bytes() <= 250, "bytes were {}", cache.bytes());
    assert!(cache.stats().evictions >= 1);
}

#[test]
fn an_oversized_value_is_still_stored() {
    let mut cache = LruCache::<String, Vec<u8>>::new(10).with_max_bytes(50);
    cache.insert("small".to_owned(), vec![0; 10]);
    cache.insert("huge".to_owned(), vec![0; 500]);

    assert!(
        cache.contains_key(&"huge".to_owned()),
        "refusing an oversized value would be a silent failure"
    );
}




#[test]
fn removal_returns_the_value_and_frees_bytes() {
    let mut cache = cache(4);
    cache.insert("k".to_owned(), vec![0; 20]);

    assert_eq!(cache.remove(&"k".to_owned()), Some(vec![0; 20]));
    assert_eq!(cache.bytes(), 0);
    assert!(cache.remove(&"k".to_owned()).is_none());
}

#[test]
fn zero_capacity_is_corrected() {
    let mut cache = cache(0);
    assert_eq!(cache.max_entries(), 1);

    cache.insert("k".to_owned(), vec![1]);
    assert!(
        cache.contains_key(&"k".to_owned()),
        "a cache must hold at least one entry"
    );
}

#[test]
fn hit_ratio_is_computed() {
    let mut cache = cache(4);
    cache.insert("k".to_owned(), vec![1]);

    let _ = cache.get(&"k".to_owned());
    let _ = cache.get(&"k".to_owned());
    let _ = cache.get(&"absent".to_owned());

    let stats = cache.stats();
    assert_eq!(stats.hits, 2);
    assert_eq!(stats.misses, 1);
    assert_eq!(stats.hit_ratio(), Ratio::new(2, 3));
}

#[test]
fn the_order_index_stays_consistent_under_churn() {
    // Exercises insert, hit, replace, remove, and eviction together; if the
    // order index drifted out of step with the entry map, eviction would
    // start choosing wrong or panicking.
    let mut cache = cache(8);

    for round in 0..200_u32 {
        let key = format!("k{}", round % 12);
        cache.insert(key.clone(), vec![0; 8]);

        if round % 3 == 0 {
            let _ = cache.get(&key);
        }
        if round % 7 == 0 {
            let _ = cache.remove(&format!("k{}", round % 5));
        }
    }

    assert!(cache.len() <= 8, "capacity exceeded: {}", cache.len());
    // Exactly the keys that are present are counted, and every one of them is
    // still evicted in its turn.
    let present = (0..12)
        .filter(|n| cache.contains_key(&format!("k{n}")))
        .count();
    assert_eq!(present, cache.len());

    for round in 0..8 {
        cache.insert(format!("fresh{round}"), vec![0; 8]);
    }
    assert_eq!(cache.len(), 8);
    assert_eq!(cache.bytes(), 64);
    assert!((0..12).all(|n| !cache.contains_key(&format!("k{n}"))));
}

#[test]
fn eviction_order_is_strictly_by_last_use() {
    let mut cache = cache(3);
    cache.insert("a".to_owned(), vec![1]);
    cache.insert("b".to_owned(), vec![2]);
    cache.insert("c".to_owned(), vec![3]);

    // Use them in a deliberate order: b, a, c.
    let _ = cache.get(&"b".to_owned());
    let _ = cache.get(&"a".to_owned());
    let _ = cache.get(&"c".to_owned());

    // "b" is now least recent and must go first.
    cache.insert("d".to_owned(), vec![4]);
    assert!(!cache.contains_key(&"b".to_owned()));
    assert!(cache.contains_key(&"a".to_owned()) && cache.contains_key(&"c".to_owned()) && cache.contains_key(&"d".to_owned()));

    // Then "a".
    cache.insert("e".to_owned(), vec![5]);
    assert!(!cache.contains_key(&"a".to_owned()));
}

#[test]
fn the_ttl_counter_tracks_expiring_entries() {
    // The counter gates expiry scanning; if it drifted above zero the cache
    // would sweep needlessly, and if it drifted below, expired entries
    // would never be collected.
    let mut cache = cache(16);

    cache.insert("plain".to_owned(), vec![1]);
    assert_eq!(
        cache.ttl_entries(), 0,
        "an entry without a TTL must not count"
    );

    cache.insert_with_ttl("a".to_owned(), vec![1], Duration::from_secs(30));
    cache.insert_with_ttl("b".to_owned(), vec![1], Duration::from_secs(30));
    assert_eq!(cache.ttl_entries(), 2);

    // Replacing a TTL entry with a plain one releases the count.
    cache.insert("a".to_owned(), vec![2]);
    assert_eq!(cache.ttl_entries(), 1);

    // Explicit removal releases it too.
    assert!(cache.remove(&"b".to_owned()).is_some());
    assert_eq!(cache.ttl_entries(), 0);

    // And clearing resets everything.
    cache.insert_with_ttl("c".to_owned(), vec![1], Duration::from_secs(30));
    cache.clear();
    assert_eq!(cache.ttl_entries(), 0);
}

#[test]
fn expiring_entries_are_collected_when_evicted() {
    let mut cache = cache(2);
    cache.insert_with_ttl("a".to_owned(), vec![1], Duration::from_secs(30));
    cache.insert_with_ttl("b".to_owned(), vec![1], Duration::from_secs(30));
    assert_eq!(cache.ttl_entries(), 2);

    // Forces an eviction of a TTL-bearing entry.
    cache.insert("c".to_owned(), vec![1]);
    assert_eq!(
        cache.ttl_entries(), 1,
        "evicting a TTL entry must release its count"
    );
}

#[test]
fn clearing_empties_the_cache() {
    let mut cache = cache(4);
    cache.insert("a".to_owned(), vec![0; 10]);
    cache.insert("b".to_owned(), vec![0; 10]);

    cache.clear();
    assert!(cache.is_empty());
    assert_eq!(cache.bytes(), 0);
}


fn at(millis: u64) -> Instant {
    Instant::at(Duration::from_millis(millis))
}

#[test]
fn expired_entries_read_as_absent() {
    let mut cache = cache(4);
    let ttl = Some(Duration::from_millis(20));
    cache.insert_at("k".to_owned(), vec![1], ttl, at(0));
    assert!(cache.contains_key_at(&"k".to_owned(), at(0)));

    assert!(cache.get_at(&"k".to_owned(), at(40)).is_none());
    assert_eq!(cache.stats().expirations, 1);
}

#[test]
fn a_default_ttl_applies_to_inserts() {
    let mut cache = LruCache::<String, Vec<u8>>::new(4).with_default_ttl(Duration::from_secs(20));
    cache.insert("k".to_owned(), vec![1]);
    assert_eq!(cache.ttl_entries(), 1);

    assert!(cache.get_at(&"k".to_owned(), at(10_000)).is_some());
    assert!(cache.get_at(&"k".to_owned(), at(40_000)).is_none());
}

#[test]
fn purging_removes_expired_entries_and_frees_bytes() {
    let mut cache = cache(10);
    cache.insert_at("short".to_owned(), vec![0; 50], Some(Duration::from_millis(20)), at(0));
    cache.insert_at("long".to_owned(), vec![0; 50], Some(Duration::from_secs(30)), at(0));
    assert_eq!(cache.bytes(), 100);

    assert_eq!(cache.purge_expired_at(at(40)), 1);
    assert_eq!(cache.bytes(), 50, "expired bytes must be released");
    assert!(cache.contains_key_at(&"long".to_owned(), at(40)));
}

#[test]
fn the_clock_does_not_stand_in_the_way() {
    let mut cache = cache(4);
    cache.insert_with_ttl("k".to_owned(), vec![7], Duration::from_secs(3600));
    assert_eq!(cache.get(&"k".to_owned()), Some(&vec![7]));
    assert_eq!(cache.purge_expired(), 0);
    assert_eq!(cache.len(), 1);
    assert_eq!(cache.remove(&"k".to_owned()), Some(vec![7]));
}

#[test]
fn an_entry_expires_exactly_when_its_time_is_up() {
    let mut cache = cache(4);
    cache.insert_at("k".to_owned(), vec![1], Some(Duration::from_millis(20)), at(5));
    assert!(cache.contains_key_at(&"k".to_owned(), at(24)));
    assert!(!cache.contains_key_at(&"k".to_owned(), at(25)));
    assert_eq!(cache.len_at(at(24)), 1);
    assert_eq!(cache.len_at(at(25)), 0);
}

#[test]
fn a_digest_is_the_value_it_has_always_been() {
    assert_eq!(Digest::of(b"").to_string(), "a3c9d2fcddad210893eee665bf06c8a4");
    assert_eq!(Digest::of(b"a").to_string(), "67301618beafec506b4b04bade82432e");
    assert_eq!(Digest::of(b"hello").as_u128(), 0x0704_c901_a787_9e4a_2156_0abc_176a_4831);
    assert_eq!(Digest::of(b"hello").to_bytes()[..4], [0x07, 0x04, 0xc9, 0x01]);
}

#[test]
fn a_minimum_size_keeps_small_payloads_out() {
    let mut dedup = Deduplicator::new(16).with_min_size(100);
    let payload = Bytes::from(vec![b'x'; 99]);
    assert!(!dedup.offer(payload.clone()).is_cached());
    assert!(!dedup.offer(payload).is_cached());

    let payload = Bytes::from(vec![b'x'; 100]);
    assert!(!dedup.offer(payload.clone()).is_cached());
    assert!(dedup.contains(Digest::of(&payload)));
    assert!(dedup.offer(payload).is_cached());
}

#[test]
fn a_full_reference_counts_its_payload() {
    let mut dedup = Deduplicator::new(4);
    let mut store = DedupStore::new();
    let payload = Bytes::from(vec![1_u8; 64]);
    let reference = dedup.offer(payload.clone());
    assert!(matches!(reference, Reference::Content { .. }));
    assert_eq!(reference.digest(), Digest::of(&payload));
    assert!(store.is_empty());
    assert_eq!(store.resolve(&reference), Some(payload));
    assert_eq!(store.len(), 1);
}

#[test]
fn the_clock_of_a_cache_starts_at_zero_and_moves_on() {
    let mut cache: LruCache<String, Vec<u8>> = LruCache::new(1024);
    let first = cache.now();
    assert!(first < Instant::at(Duration::from_secs(60)));
    cache.insert_with_ttl("k".to_owned(), vec![1], Duration::from_secs(3600));
    let later = cache.now();
    assert!(later >= first);
    assert!(cache.get_at(&"k".to_owned(), later + Duration::from_secs(3700)).is_none());
}

#[test]
fn a_clock_goes_on_from_where_it_is_set() {
    let noon = Instant::at(Duration::from_secs(43_200));
    let clock = Clock::start_at(noon);
    assert!(clock.now() >= noon);
    assert!(clock.now() < noon + Duration::from_secs(60));
    assert!(Clock::start().now() < Instant::at(Duration::from_secs(60)));
}

#[test]
fn insertion_evicts_no_more_than_it_must() {
    let mut cache = LruCache::<u64, Vec<u8>>::new(4).with_max_bytes(100);
    for key in 0..4 {
        assert_eq!(cache.insert(key, vec![0; 20]), None);
    }
    // 60 bytes of the others stay with a value of 40: the oldest one goes.
    assert_eq!(cache.insert(4, vec![1; 40]), None);
    assert_eq!(cache.stats().evictions, 1);
    assert_eq!(cache.bytes(), 100);
    assert!(!cache.contains_key(&0) && cache.contains_key(&1));

    // A replacement is weighed without what it replaces.
    assert_eq!(cache.insert(2, vec![2; 60]), Some(vec![0; 20]));
    assert_eq!(cache.bytes(), 100);
    assert_eq!(cache.stats().evictions, 3);
    assert_eq!(cache.get(&2), Some(&vec![2; 60]));
    assert!(cache.contains_key(&4) && !cache.contains_key(&1) && !cache.contains_key(&3));
    assert_eq!(cache.stats().expirations, 0);
}

#[test]
fn every_reference_resolves_to_what_was_offered() {
    // Room for two of three payloads: some go as content again, some as digests.
    let mut sender = Deduplicator::new(2);
    let mut receiver = DedupStore::new();
    let payloads = [vec![1_u8; 2000], vec![2_u8; 2000], vec![3_u8; 2000], vec![4_u8; 3]];
    let mut digests = 0;
    for turn in [0, 0, 1, 0, 2, 1, 2, 3, 3, 0] {
        let data = Bytes::copy_from_slice(&payloads[turn]);
        let reference = sender.offer(data.clone());
        if matches!(reference, Reference::Cached { .. }) {
            digests += 1;
        }
        assert_eq!(receiver.resolve(&reference), Some(data));
    }
    assert_eq!(digests, 3);
}
