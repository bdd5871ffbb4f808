use stacking::cache::{walk, Cache, CacheError, Walk};
use std::time::{SystemTime, UNIX_EPOCH};

fn fresh_path(name: &str) -> String {
    let now = SystemTime::now().duration_since(UNIX_EPOCH).unwrap().as_nanos();
    format!("/tmp/stacking_cache_{}_{}", name, now)
}

#[test]
fn entries_are_found_again() {
    let mut cache = Cache::open(&fresh_path("found")).unwrap();
    assert_eq!(cache.len(), Ok(0));
    assert_eq!(cache.contains_key(&vec![1]), Ok(false));
    assert_eq!(cache.insert(&vec![1], vec![10]), Ok(()));
    assert_eq!(cache.contains_key(&vec![1]), Ok(true));
    assert_eq!(cache.contains_key(&vec![2]), Ok(false));
    assert_eq!(cache.len(), Ok(1));
    assert_eq!(cache.entry_at(0), Ok(Some((vec![1], vec![10]))));
}

#[test]
fn a_second_value_takes_the_place_of_the_first() {
    let mut cache = Cache::open(&fresh_path("second")).unwrap();
    cache.insert(&vec![7], vec![1]).unwrap();
    cache.insert(&vec![7], vec![2]).unwrap();
    assert_eq!(cache.len(), Ok(1));
    assert_eq!(cache.entry_at(0), Ok(Some((vec![7], vec![2]))));
}

#[test]
fn positions_follow_the_order_of_the_keys() {
    let mut cache = Cache::open(&fresh_path("order")).unwrap();
    let keys: Vec<Vec<u8>> =
        vec![vec![2], vec![1, 255], vec![1], vec![], vec![1, 0], vec![255, 255], vec![2, 0]];
    for key in &keys {
        cache.insert(key, key.clone()).unwrap();
    }
    let mut sorted = keys.clone();
    sorted.sort();
    for (position, key) in sorted.iter().enumerate() {
        assert_eq!(cache.entry_at(position), Ok(Some((key.clone(), key.clone()))));
    }
    assert_eq!(cache.entry_at(keys.len()), Ok(None));
    assert_eq!(cache.entry_at(usize::MAX), Ok(None));
    assert_eq!(cache.len(), Ok(keys.len()));
}

#[test]
fn an_empty_cache_has_no_entry() {
    let cache = Cache::open(&fresh_path("empty")).unwrap();
    assert_eq!(cache.entry_at(0), Ok(None));
}

#[test]
fn entries_outlive_the_cache() {
    let path = fresh_path("outlive");
    {
        let mut cache = Cache::open(&path).unwrap();
        cache.insert(&vec![3], vec![4]).unwrap();
    }
    let cache = Cache::open(&path).unwrap();
    assert_eq!(cache.contains_key(&vec![3]), Ok(true));
    assert_eq!(cache.entry_at(0), Ok(Some((vec![3], vec![4]))));
}

#[test]
fn a_cache_needs_a_directory() {
    assert!(matches!(Cache::open("/dev/null/cache"), Err(CacheError::Open)));
}

#[test]
fn a_walk_goes_from_key_to_key() {
    let entry = || Ok(Some((vec![1u8], vec![2u8])));
    assert!(matches!(walk(Err(CacheError::Read), 0), Walk::Failed));
    assert!(matches!(walk(Err(CacheError::Read), 3), Walk::Failed));
    assert!(matches!(walk(Ok(None), 0), Walk::Ended));
    assert!(matches!(walk(Ok(None), 3), Walk::Ended));
    match walk(entry(), 0) {
        Walk::Here { key, value } => {
            assert_eq!(key, vec![1]);
            assert_eq!(value, vec![2]);
        }
        other => panic!("{:?}", other),
    }
    match walk(entry(), 3) {
        Walk::On { key } => assert_eq!(key, vec![1]),
        other => panic!("{:?}", other),
    }
}

#[test]
fn keys_follow_each_other() {
    let mut cache = Cache::open(&fresh_path("follow")).unwrap();
    assert_eq!(cache.first(), Ok(None));
    for key in [vec![2u8], vec![1], vec![1, 0]] {
        cache.insert(&key, vec![key.len() as u8]).unwrap();
    }
    assert_eq!(cache.first(), Ok(Some((vec![1], vec![1]))));
    assert_eq!(cache.after(&vec![1]), Ok(Some((vec![1, 0], vec![2]))));
    assert_eq!(cache.after(&vec![1, 5]), Ok(Some((vec![2], vec![1]))));
    assert_eq!(cache.after(&vec![2]), Ok(None));
}

#[test]
fn entries_are_counted_one_by_one() {
    let mut cache = Cache::open(&fresh_path("counted")).unwrap();
    for k in 0u8..100 {
        cache.insert(&vec![k, 1], vec![]).unwrap();
        assert_eq!(cache.len(), Ok(k as usize + 1));
    }
}
