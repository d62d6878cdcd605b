use blockifier::transaction::objects::ResourcesMapping;
use indexmap::IndexMap;

#[test]
fn new_mapping_is_empty() {
    let mapping = ResourcesMapping::new();
    assert_eq!(mapping.pairs(), vec![]);
    assert_eq!(mapping.get("n_steps"), None);
    assert_eq!(mapping, ResourcesMapping::default());
}

#[test]
fn insert_appends_or_replaces_in_place() {
    let mut mapping = ResourcesMapping::new();
    assert_eq!(mapping.insert("l1_gas_usage".to_string(), 21000), None);
    assert_eq!(mapping.insert("n_steps".to_string(), 300000), None);
    assert_eq!(mapping.insert("l1_gas_usage".to_string(), 5), Some(21000));
    assert_eq!(
        mapping.pairs(),
        vec![("l1_gas_usage".to_string(), 5), ("n_steps".to_string(), 300000)]
    );
    assert_eq!(mapping.get("l1_gas_usage"), Some(5));
    assert_eq!(mapping.get("n_steps"), Some(300000));
    assert_eq!(mapping.get("pedersen"), None);
}

#[test]
fn remove_moves_the_last_pair_into_the_gap() {
    let mut mapping = ResourcesMapping(IndexMap::from_iter([
        ("a".to_string(), 1),
        ("b".to_string(), 2),
        ("c".to_string(), 3),
        ("d".to_string(), 4),
    ]));
    assert_eq!(mapping.remove("b"), Some(2));
    assert_eq!(
        mapping.pairs(),
        vec![("a".to_string(), 1), ("d".to_string(), 4), ("c".to_string(), 3)]
    );
    assert_eq!(mapping.remove("c"), Some(3));
    assert_eq!(mapping.pairs(), vec![("a".to_string(), 1), ("d".to_string(), 4)]);
    assert_eq!(mapping.remove("zzz"), None);
    assert_eq!(mapping.pairs(), vec![("a".to_string(), 1), ("d".to_string(), 4)]);
}

#[test]
fn equality_does_not_depend_on_order() {
    let one = ResourcesMapping(IndexMap::from_iter([("a".to_string(), 1), ("b".to_string(), 2)]));
    let other = ResourcesMapping(IndexMap::from_iter([("b".to_string(), 2), ("a".to_string(), 1)]));
    let third = ResourcesMapping(IndexMap::from_iter([("b".to_string(), 2), ("a".to_string(), 3)]));
    assert!(one == other);
    assert!(one != third);
    assert!(one != ResourcesMapping::new());
}

#[test]
fn clone_keeps_pairs_and_order() {
    let one = ResourcesMapping(IndexMap::from_iter([("b".to_string(), 2), ("a".to_string(), 1)]));
    let copy = one.clone();
    assert_eq!(copy.pairs(), one.pairs());
    assert_eq!(copy.pairs(), vec![("b".to_string(), 2), ("a".to_string(), 1)]);
}
