use mimo_tts::cache::{sanitize_key, Cache, CacheRead};
use std::collections::HashMap;

/// The two-level cache as the service runs it: the library's memory layer,
/// and files (here a map from file name to bytes) as the disk layer.
struct TwoLevel {
    memory: Cache,
    disk: HashMap<String, (Vec<u8>, u64)>,
    clock: u64,
}

impl TwoLevel {
    fn new(ttl_nanos: u64, max_entries: usize) -> Self {
        TwoLevel { memory: Cache::new(ttl_nanos, max_entries), disk: HashMap::new(), clock: 1 }
    }

    fn tick(&mut self, nanos: u64) {
        self.clock += nanos;
    }

    fn get(&mut self, key: &str) -> Option<Vec<u8>> {
        let name = sanitize_key(key);
        let disk = self.disk.get(&name).cloned();
        let read = self.memory.read_through(key, self.clock, disk);
        if read.drop_file {
            self.disk.remove(&name);
        }
        read.data
    }

    fn put(&mut self, key: &str, data: Vec<u8>) {
        self.disk.insert(sanitize_key(key), (data.clone(), self.clock));
        self.memory.store(key, data, self.clock);
    }

    fn evict(&mut self, key: &str) {
        self.memory.evict(key);
        self.disk.remove(&sanitize_key(key));
    }

    fn exists_on_disk(&self, key: &str) -> bool {
        self.disk.contains_key(&sanitize_key(key))
    }
}

const SECOND: u64 = 1_000_000_000;

#[test]
fn test_cache_put_get() {
    let mut cache = TwoLevel::new(60 * SECOND, 10);
    cache.put("key1", b"hello world".to_vec());
    assert_eq!(cache.get("key1"), Some(b"hello world".to_vec()));
}

#[test]
fn test_cache_miss() {
    let mut cache = TwoLevel::new(60 * SECOND, 10);
    assert_eq!(cache.get("nonexistent"), None);
}

#[test]
fn test_cache_evict() {
    let mut cache = TwoLevel::new(60 * SECOND, 10);
    cache.put("key1", b"data".to_vec());
    assert!(cache.get("key1").is_some());
    cache.evict("key1");
    assert!(cache.get("key1").is_none());
}

#[test]
fn test_cache_expiry() {
    let mut cache = TwoLevel::new(0, 10);
    cache.put("key1", b"data".to_vec());
    cache.tick(10_000_000);
    assert_eq!(cache.get("key1"), None, "Expired entry should return None");
}

#[test]
fn test_cache_disk_survives_restart() {
    let mut cache = TwoLevel::new(60 * SECOND, 10);
    cache.put("persist_key", b"persisted data".to_vec());
    let disk = cache.disk.clone();
    let mut cache2 = TwoLevel { memory: Cache::new(60 * SECOND, 10), disk, clock: 5 };
    assert_eq!(cache2.get("persist_key"), Some(b"persisted data".to_vec()));
}

#[test]
fn test_cache_exists_check() {
    let mut cache = TwoLevel::new(60 * SECOND, 10);
    assert!(!cache.exists_on_disk("key1"));
    cache.put("key1", b"data".to_vec());
    assert!(cache.exists_on_disk("key1"));
}

#[test]
fn test_cache_lru_eviction() {
    let mut cache = TwoLevel::new(60 * SECOND, 3);
    cache.put("a", b"1".to_vec());
    cache.put("b", b"2".to_vec());
    cache.put("c", b"3".to_vec());
    cache.put("d", b"4".to_vec());
    let mem_size = cache.memory.memory_len();
    assert!(mem_size <= 3, "Memory should have at most 3 entries, got {mem_size}");
    assert!(cache.exists_on_disk("a"), "Evicted entry should still be on disk");
    assert_eq!(cache.memory.lookup("a", cache.clock), None);
}

#[test]
fn test_cache_lru_get_refreshes_order() {
    let mut cache = TwoLevel::new(60 * SECOND, 3);
    cache.put("a", b"1".to_vec());
    cache.put("b", b"2".to_vec());
    cache.put("c", b"3".to_vec());
    let _ = cache.get("a");
    cache.put("d", b"4".to_vec());
    assert!(cache.memory.lookup("a", cache.clock).is_some(), "Recently accessed 'a' should still be in memory");
    assert!(cache.memory.lookup("b", cache.clock).is_none(), "'b' was the least recently used");
    assert!(cache.exists_on_disk("b"), "Evicted from memory but still on disk");
}

#[test]
fn test_cache_background_cleaner() {
    let mut cache = TwoLevel::new(50_000_000, 10);
    cache.put("expire_soon", b"data".to_vec());
    cache.put("later", b"x".to_vec());
    cache.tick(150_000_000);
    cache.put("fresh", b"y".to_vec());
    let expired = cache.memory.expired_keys(cache.clock);
    assert_eq!(expired, vec!["expire_soon".to_string(), "later".to_string()]);
    for k in expired {
        cache.evict(&k);
    }
    assert!(cache.get("expire_soon").is_none(), "Expired entry should be cleaned up");
    assert!(cache.get("fresh").is_some());
}

#[test]
fn keys_become_safe_file_names() {
    assert_eq!(sanitize_key("chunk_a/b\\c\0d"), "chunk_a_b_cd");
    assert_eq!(sanitize_key("plain"), "plain");
}

#[test]
fn read_through_prefers_a_live_memory_entry() {
    let mut c = Cache::new(100, 10);
    c.store("k", b"memory".to_vec(), 1);
    let r = c.read_through("k", 50, Some((b"disk".to_vec(), 1)));
    assert_eq!(r, CacheRead { data: Some(b"memory".to_vec()), drop_file: false });
    assert_eq!(c.memory_len(), 1);
}

#[test]
fn read_through_takes_a_live_disk_copy_when_memory_misses() {
    let mut c = Cache::new(100, 10);
    let r = c.read_through("k", 5, Some((b"disk".to_vec(), 3)));
    assert_eq!(r, CacheRead { data: Some(b"disk".to_vec()), drop_file: false });
    assert_eq!(c.memory_len(), 1);
    assert_eq!(c.lookup("k", 102), Some(b"disk".to_vec()));
    assert_eq!(c.lookup("k", 103), None);
    assert_eq!(c.read_through("absent", 5, None), CacheRead { data: None, drop_file: false });
}

#[test]
fn an_expired_entry_reads_as_nothing_and_its_file_goes() {
    let mut c = Cache::new(5, 10);
    c.store("k", vec![7], 0);
    let r = c.read_through("k", 10, Some((vec![7], 0)));
    assert_eq!(r, CacheRead { data: None, drop_file: true });
    assert_eq!(c.memory_len(), 0);
    let r = c.read_through("k", 10, Some((vec![7], 0)));
    assert_eq!(r, CacheRead { data: None, drop_file: true });
    assert_eq!(c.memory_len(), 0);
}

#[test]
fn an_expired_value_pushed_out_of_memory_stays_gone() {
    let mut cache = TwoLevel::new(60 * SECOND, 1);
    cache.put("a", b"1".to_vec());
    cache.put("b", b"2".to_vec());
    cache.tick(30 * SECOND);
    assert_eq!(cache.get("a"), Some(b"1".to_vec()));
    cache.tick(31 * SECOND);
    assert_eq!(cache.get("a"), None);
    assert!(!cache.exists_on_disk("a"));
}

#[test]
fn read_through_with_a_zero_lifetime_gives_nothing() {
    let mut c = Cache::new(0, 10);
    c.store("k", b"data".to_vec(), 1);
    assert_eq!(c.read_through("k", 1, Some((b"data".to_vec(), 1))).data, None);
    assert_eq!(c.read_through("k", 20, Some((b"data".to_vec(), 1))).data, None);
}
