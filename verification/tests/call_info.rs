use blockifier::execution::entry_point::{CallEntryPoint, CallInfo};
use blockifier::primitives::{ClassHash, Felt, StorageKey};

fn node(marker: u128, inner_calls: Vec<CallInfo>) -> CallInfo {
    CallInfo {
        call: CallEntryPoint { calldata: vec![Felt::from_u128(marker)], ..Default::default() },
        inner_calls,
        ..Default::default()
    }
}

fn hashed(class_hash: u128, reads: Vec<u128>, keys: Vec<u128>, inner_calls: Vec<CallInfo>) -> CallInfo {
    CallInfo {
        call: CallEntryPoint {
            class_hash: Some(ClassHash(Felt::from_u128(class_hash))),
            ..Default::default()
        },
        storage_read_values: reads.into_iter().map(Felt::from_u128).collect(),
        accessed_storage_keys: keys.into_iter().map(|k| StorageKey(Felt::from_u128(k))).collect(),
        inner_calls,
        ..Default::default()
    }
}

#[test]
fn test_call_info_iteration() {
    // Create nested call infos according to their expected traversal order (pre-order).
    // The tree is constructed as follows:
    //                  root (0)
    //              /             \
    //      inner_node (1)      right_leaf (3)
    //           |
    //       left_leaf (2)
    let left_leaf = node(2, vec![]);
    let right_leaf = node(3, vec![]);
    let inner_node = node(1, vec![left_leaf]);
    let root = node(0, vec![inner_node, right_leaf]);

    let visited = root.iter();
    assert_eq!(visited.len(), 4);
    for (i, call_info) in visited.into_iter().enumerate() {
        assert_eq!(call_info.call.calldata, vec![Felt::from_u128(i as u128)]);
    }
}

#[test]
fn iteration_of_a_leaf_visits_the_leaf_only() {
    let leaf = node(7, vec![]);
    let visited = leaf.iter();
    assert_eq!(visited.len(), 1);
    assert_eq!(visited[0].call.calldata, vec![Felt::from_u128(7)]);
}

#[test]
fn iteration_of_a_deep_and_wide_tree_is_in_pre_order() {
    // 0 -> [1 -> [2 -> [3]], 4, 5 -> [6, 7]]
    let root = node(
        0,
        vec![
            node(1, vec![node(2, vec![node(3, vec![])])]),
            node(4, vec![]),
            node(5, vec![node(6, vec![]), node(7, vec![])]),
        ],
    );
    let markers: Vec<Felt> = root.iter().into_iter().map(|c| c.call.calldata[0]).collect();
    let expected: Vec<Felt> = (0..8).map(Felt::from_u128).collect();
    assert_eq!(markers, expected);
}

#[test]
fn executed_class_hashes_are_those_of_all_nodes_each_once() {
    let root = hashed(
        10,
        vec![],
        vec![],
        vec![hashed(20, vec![], vec![], vec![hashed(10, vec![], vec![], vec![])]), hashed(30, vec![], vec![], vec![])],
    );
    let hashes = root.get_executed_class_hashes();
    let expected: Vec<ClassHash> =
        vec![10, 20, 30].into_iter().map(|h| ClassHash(Felt::from_u128(h))).collect();
    assert_eq!(hashes, expected);
}

#[test]
fn accessed_storage_keys_are_those_of_all_nodes_each_once() {
    let root = hashed(
        1,
        vec![],
        vec![5, 6],
        vec![hashed(1, vec![], vec![6, 7], vec![]), hashed(1, vec![], vec![], vec![]), hashed(1, vec![], vec![5, 8], vec![])],
    );
    let keys = root.get_accessed_storage_keys();
    let expected: Vec<StorageKey> =
        vec![5, 6, 7, 8].into_iter().map(|k| StorageKey(Felt::from_u128(k))).collect();
    assert_eq!(keys, expected);
}

#[test]
fn storage_read_values_keep_order_and_duplicates() {
    // A read just before a write is recorded again, not dropped.
    let root = hashed(
        1,
        vec![0, 39],
        vec![],
        vec![hashed(1, vec![39, 39], vec![], vec![hashed(1, vec![0], vec![], vec![])]), hashed(1, vec![18], vec![], vec![])],
    );
    let values = root.get_storage_read_values();
    let expected: Vec<Felt> = vec![0, 39, 39, 39, 0, 18].into_iter().map(Felt::from_u128).collect();
    assert_eq!(values, expected);
}

#[test]
fn clone_of_a_tree_is_equal_to_it() {
    let root = hashed(1, vec![2], vec![3], vec![hashed(4, vec![5], vec![6], vec![])]);
    assert_eq!(root.clone(), root);
}
