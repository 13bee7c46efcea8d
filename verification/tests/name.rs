use protobuf::name::concat_paths;
use protobuf::str_map::StrIndexMap;

#[test]
fn concat_paths_skips_empty_parts() {
    assert_eq!(concat_paths("", "b"), "b");
    assert_eq!(concat_paths("a", ""), "a");
    assert_eq!(concat_paths("", ""), "");
    assert_eq!(concat_paths("a.b", "C"), "a.b.C");
}

#[test]
fn str_index_map_insert_replaces() {
    let mut m = StrIndexMap::new();
    assert_eq!(m.get(&"a".to_string()), None);
    assert_eq!(m.insert("a".to_string(), 1), None);
    assert_eq!(m.insert("b".to_string(), 2), None);
    assert_eq!(m.get(&"a".to_string()), Some(1));
    assert_eq!(m.insert("a".to_string(), 3), Some(1));
    assert_eq!(m.get(&"a".to_string()), Some(3));
    assert_eq!(m.get(&"b".to_string()), Some(2));
}
