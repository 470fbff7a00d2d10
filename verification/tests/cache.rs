use weather_cli::cache::{Cache, CacheEntry, TTL_SECONDS};
use weather_cli::models::ReturnedData;

#[derive(Debug, Clone, PartialEq)]
struct Location {
    lat: f64,
    lon: f64,
}

type Data = ReturnedData<(), (), (), Location>;

#[test]
fn cache_insert_and_get_valid() {
    let mut cache: Cache<Data> = Cache::new();
    cache.put(
        "test_key".to_string(),
        CacheEntry {
            cached_at: Cache::<Data>::now(),
            data: ReturnedData::Location(Box::new(Location { lat: 1.0, lon: 2.0 })),
        },
    );
    let entry = &cache
        .entries()
        .iter()
        .find(|(k, _)| k == "test_key")
        .unwrap()
        .1;
    assert!(Cache::is_valid(entry));
    if let ReturnedData::Location(loc) = &entry.data {
        assert_eq!(loc.lat, 1.0);
    } else {
        panic!("expected Location variant");
    }
}

#[test]
fn cache_expired_entry() {
    let entry: CacheEntry<Data> = CacheEntry {
        cached_at: 0, // UNIX epoch — way older than TTL
        data: ReturnedData::Location(Box::new(Location { lat: 0.0, lon: 0.0 })),
    };
    assert!(!Cache::is_valid(&entry));
}

#[test]
fn cache_read_after_write_within_ttl() {
    let mut cache: Cache<u32> = Cache::new();
    cache.insert_at("48.85_2.35_current", 7, 1000);
    assert_eq!(cache.get_valid_at("48.85_2.35_current", 1000), Some(&7));
    assert_eq!(cache.get_valid_at("48.85_2.35_current", 1000 + TTL_SECONDS - 1), Some(&7));
    assert_eq!(cache.get_valid_at("48.85_2.35_current", 1000 + TTL_SECONDS), None);
    assert_eq!(cache.get_valid_at("48.85_2.35_current", 999), None);
    assert_eq!(cache.get_valid_at("48.85_2.35_forecast", 1000), None);
}

#[test]
fn cache_write_replaces_same_key() {
    let mut cache: Cache<&str> = Cache::new();
    cache.insert_at("k", "old", 10);
    cache.insert_at("other", "x", 10);
    cache.insert_at("k", "new", 20);
    assert_eq!(cache.entries().len(), 2);
    assert_eq!(cache.get_valid_at("k", 20), Some(&"new"));
    assert_eq!(cache.get_valid_at("other", 20), Some(&"x"));
}

#[test]
fn cache_insert_uses_clock() {
    let mut cache: Cache<u8> = Cache::new();
    cache.insert("ml", 3);
    assert_eq!(cache.get_valid("ml"), Some(&3));
    assert_eq!(cache.get_valid("absent"), None);
}

#[test]
fn cache_validity_boundaries() {
    let entry = CacheEntry { cached_at: 100, data: () };
    assert!(Cache::is_valid_at(&entry, 100));
    assert!(Cache::is_valid_at(&entry, 100 + TTL_SECONDS - 1));
    assert!(!Cache::is_valid_at(&entry, 100 + TTL_SECONDS));
    assert!(!Cache::is_valid_at(&entry, 99));
    assert_eq!(TTL_SECONDS, 300 * 60);
}

#[test]
fn cache_new_is_empty() {
    let cache: Cache<u8> = Cache::new();
    assert!(cache.entries().is_empty());
    assert_eq!(cache.get_valid_at("anything", 0), None);
}
