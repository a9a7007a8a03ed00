use votesmart::{MapKey, RecommendationIndex, StorageKey, UnorderedMap};

#[test]
fn a_new_map_is_empty() {
    let map: UnorderedMap<u64, String> = UnorderedMap::new();
    assert_eq!(map.len(), 0);
    assert_eq!(map.get(&1), None);
    assert!(map.keys_as_vector().is_empty());
    assert!(map.values_as_vector().is_empty());
}

#[test]
fn insert_then_get() {
    let mut map: UnorderedMap<u64, String> = UnorderedMap::new();
    map.insert(5, "five".to_string());
    map.insert(3, "three".to_string());
    assert_eq!(map.len(), 2);
    assert_eq!(map.get(&5), Some(&"five".to_string()));
    assert_eq!(map.get(&3), Some(&"three".to_string()));
    assert_eq!(map.get(&4), None);
}

#[test]
fn the_second_insert_under_a_key_wins() {
    let mut map: UnorderedMap<u64, String> = UnorderedMap::new();
    map.insert(5, "first".to_string());
    map.insert(5, "second".to_string());
    assert_eq!(map.len(), 1);
    assert_eq!(map.get(&5), Some(&"second".to_string()));
    assert_eq!(map.keys_as_vector(), &vec![5]);
    assert_eq!(map.values_as_vector(), &vec!["second".to_string()]);
}

#[test]
fn insert_returns_the_value_that_was_there() {
    let mut map: UnorderedMap<u64, String> = UnorderedMap::new();
    assert_eq!(map.insert(5, "first".to_string()), None);
    assert_eq!(map.insert(6, "other".to_string()), None);
    assert_eq!(map.insert(5, "second".to_string()), Some("first".to_string()));
    assert_eq!(map.insert(5, "third".to_string()), Some("second".to_string()));
    assert_eq!(map.insert(6, "last".to_string()), Some("other".to_string()));
    assert_eq!(map.keys_as_vector(), &vec![5, 6]);
    assert_eq!(map.values_as_vector(), &vec!["third".to_string(), "last".to_string()]);
}

#[test]
fn an_overwritten_key_keeps_its_place() {
    let mut map: UnorderedMap<u64, u64> = UnorderedMap::new();
    map.insert(1, 10);
    map.insert(2, 20);
    map.insert(3, 30);
    map.insert(2, 21);
    assert_eq!(map.keys_as_vector(), &vec![1, 2, 3]);
    assert_eq!(map.values_as_vector(), &vec![10, 21, 30]);
    assert_eq!(map.len(), 3);
}

#[test]
fn keys_and_values_are_aligned() {
    let mut map: UnorderedMap<u64, String> = UnorderedMap::new();
    for id in [9u64, 4, 7] {
        map.insert(id, format!("value {}", id));
    }
    let keys = map.keys_as_vector();
    let values = map.values_as_vector();
    assert_eq!(keys.len(), values.len());
    for index in 0..keys.len() {
        assert_eq!(values[index], format!("value {}", keys[index]));
        assert_eq!(map.get(&keys[index]), Some(&values[index]));
    }
}

#[test]
fn extend_stores_first_to_last() {
    let mut map: UnorderedMap<u64, u64> = UnorderedMap::new();
    map.insert(1, 10);
    map.extend(vec![(2, 20), (1, 11), (3, 30), (2, 22)]);
    assert_eq!(map.keys_as_vector(), &vec![1, 2, 3]);
    assert_eq!(map.values_as_vector(), &vec![11, 22, 30]);
    map.extend(vec![]);
    assert_eq!(map.len(), 3);
}

#[test]
fn a_composite_key_is_one_key() {
    let mut map: UnorderedMap<RecommendationIndex, u64> = UnorderedMap::new();
    map.insert(RecommendationIndex { campaign_id: 1, district_id: 2 }, 12);
    map.insert(RecommendationIndex { campaign_id: 2, district_id: 1 }, 21);
    map.insert(RecommendationIndex { campaign_id: 1, district_id: 2 }, 120);
    assert_eq!(map.len(), 2);
    assert_eq!(map.get(&RecommendationIndex { campaign_id: 1, district_id: 2 }), Some(&120));
    assert_eq!(map.get(&RecommendationIndex { campaign_id: 2, district_id: 1 }), Some(&21));
    assert_eq!(map.get(&RecommendationIndex { campaign_id: 1, district_id: 1 }), None);
    assert_eq!(map.get(&RecommendationIndex { campaign_id: 2, district_id: 2 }), None);
}

#[test]
fn same_compares_keys() {
    assert!(7u64.same(&7));
    assert!(!7u64.same(&8));
    let key = RecommendationIndex { campaign_id: 1, district_id: 2 };
    assert!(key.same(&RecommendationIndex { campaign_id: 1, district_id: 2 }));
    assert!(!key.same(&RecommendationIndex { campaign_id: 1, district_id: 3 }));
    assert!(!key.same(&RecommendationIndex { campaign_id: 2, district_id: 2 }));
    assert!(!key.same(&RecommendationIndex { campaign_id: 2, district_id: 1 }));
}

#[test]
fn storage_keys_are_one_byte_each() {
    assert_eq!(StorageKey::Parties.into_storage_key(), vec![0]);
    assert_eq!(StorageKey::Campaigns.into_storage_key(), vec![1]);
    assert_eq!(StorageKey::Regions.into_storage_key(), vec![2]);
    assert_eq!(StorageKey::Districts.into_storage_key(), vec![3]);
    assert_eq!(StorageKey::Candidates.into_storage_key(), vec![4]);
    assert_eq!(StorageKey::Recommendations.into_storage_key(), vec![5]);
}

#[test]
fn storage_keys_differ_from_one_another() {
    let all = [
        StorageKey::Parties,
        StorageKey::Campaigns,
        StorageKey::Regions,
        StorageKey::Districts,
        StorageKey::Candidates,
        StorageKey::Recommendations,
    ];
    for (i, a) in all.iter().enumerate() {
        for (j, b) in all.iter().enumerate() {
            assert_eq!(a.into_storage_key() == b.into_storage_key(), i == j);
        }
    }
}
