use cardinal_geocoder::poi::PointOfInterest;
use cardinal_geocoder::tags::{find_first, KvPair, TagMap};

fn pair(key: &str, value: &str) -> (String, String) {
    (key.to_string(), value.to_string())
}

#[test]
fn new_keeps_position_and_tags_in_order() {
    let poi = PointOfInterest::new(48.5f64, -3.25f64, vec![pair("a", "1"), pair("b", "2")]);
    assert_eq!(poi.lat, 48.5);
    assert_eq!(poi.lng, -3.25);
    assert_eq!(poi.tags.len(), 2);
    assert_eq!(poi.tags[0].key, "a");
    assert_eq!(poi.tags[0].value, "1");
    assert_eq!(poi.tags[1].key, "b");
    assert_eq!(poi.tags[1].value, "2");
}

#[test]
fn duplicate_key_mapping_keeps_last_lookup_keeps_first() {
    let poi = PointOfInterest::new(0.0f64, 0.0f64, vec![pair("k", "a"), pair("k", "b")]);
    let map = poi.tags();
    assert_eq!(map.len(), 1);
    assert_eq!(map.get("k"), Some(&"b".to_string()));
    assert_eq!(poi.tag("k"), Some("a".to_string()));
}

#[test]
fn lookup_of_missing_key_gives_nothing() {
    let poi = PointOfInterest::new(1.0f64, 2.0f64, vec![pair("k", "a")]);
    assert_eq!(poi.tag("other"), None);
    assert_eq!(poi.tags().get("other"), None);
    assert_eq!(poi.tag("K"), None);
}

#[test]
fn mapping_of_three_keys_with_repeats() {
    let poi = PointOfInterest::new(
        1.0f64,
        2.0f64,
        vec![pair("x", "1"), pair("y", "2"), pair("x", "3"), pair("z", "4"), pair("y", "5")],
    );
    let map = poi.tags();
    assert_eq!(map.len(), 3);
    assert_eq!(map.get("x"), Some(&"3".to_string()));
    assert_eq!(map.get("y"), Some(&"5".to_string()));
    assert_eq!(map.get("z"), Some(&"4".to_string()));
    assert_eq!(poi.tag("x"), Some("1".to_string()));
    assert_eq!(poi.tag("y"), Some("2".to_string()));
    let keys: Vec<String> = map.pairs().iter().map(|p| p.key.clone()).collect();
    assert_eq!(keys, vec!["x".to_string(), "y".to_string(), "z".to_string()]);
}

#[test]
fn tag_map_replaces_in_place_and_appends_new_keys() {
    let map = TagMap::new();
    assert_eq!(map.len(), 0);
    let map = map.with_tag("a".to_string(), "1".to_string());
    let map = map.with_tag("b".to_string(), "2".to_string());
    let map = map.with_tag("a".to_string(), "3".to_string());
    assert_eq!(map.len(), 2);
    assert_eq!(map.pairs()[0].key, "a");
    assert_eq!(map.pairs()[0].value, "3");
    assert_eq!(map.pairs()[1].key, "b");
    assert_eq!(map.get("a"), Some(&"3".to_string()));
    assert_eq!(map.get("b"), Some(&"2".to_string()));
    assert_eq!(map.get("c"), None);
}

#[test]
fn find_first_gives_the_lowest_index() {
    let pairs = vec![
        KvPair { key: "a".to_string(), value: "1".to_string() },
        KvPair { key: "b".to_string(), value: "2".to_string() },
        KvPair { key: "b".to_string(), value: "3".to_string() },
    ];
    assert_eq!(find_first(&pairs, "b"), Some(1));
    assert_eq!(find_first(&pairs, "a"), Some(0));
    assert_eq!(find_first(&pairs, "c"), None);
    assert_eq!(find_first(&Vec::new(), "a"), None);
}
