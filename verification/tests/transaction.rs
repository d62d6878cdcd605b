use blockifier::execution::entry_point::{CallEntryPoint, CallInfo};
use blockifier::primitives::{ClassHash, Fee, Felt, TransactionVersion};
use blockifier::transaction::objects::{AccountTransactionContext, TransactionExecutionInfo};

fn tree(class_hash: u128, inner_calls: Vec<CallInfo>) -> CallInfo {
    CallInfo {
        call: CallEntryPoint {
            class_hash: Some(ClassHash(Felt::from_u128(class_hash))),
            ..Default::default()
        },
        inner_calls,
        ..Default::default()
    }
}

fn hashes(values: Vec<u128>) -> Vec<ClassHash> {
    values.into_iter().map(|h| ClassHash(Felt::from_u128(h))).collect()
}

#[test]
fn reverted_where_a_revert_error_is_there() {
    let mut info = TransactionExecutionInfo::default();
    assert!(!info.is_reverted());
    info.revert_error = Some("out of steps".to_string());
    assert!(info.is_reverted());
    info.revert_error = Some(String::new());
    assert!(info.is_reverted());
    info.revert_error = None;
    assert!(!info.is_reverted());
}

#[test]
fn calls_that_are_there_in_their_order() {
    let info = TransactionExecutionInfo {
        validate_call_info: Some(tree(1, vec![])),
        execute_call_info: None,
        fee_transfer_call_info: Some(tree(3, vec![])),
        actual_fee: Fee(5),
        ..Default::default()
    };
    let calls = info.non_optional_call_infos();
    assert_eq!(calls.len(), 2);
    assert_eq!(calls[0].call.class_hash, Some(ClassHash(Felt::from_u128(1))));
    assert_eq!(calls[1].call.class_hash, Some(ClassHash(Felt::from_u128(3))));
    assert_eq!(TransactionExecutionInfo::default().non_optional_call_infos().len(), 0);
    let all = TransactionExecutionInfo {
        validate_call_info: Some(tree(1, vec![])),
        execute_call_info: Some(tree(2, vec![])),
        fee_transfer_call_info: Some(tree(3, vec![])),
        ..Default::default()
    };
    let order: Vec<Option<ClassHash>> =
        all.non_optional_call_infos().into_iter().map(|c| c.call.class_hash).collect();
    assert_eq!(order, hashes(vec![1, 2, 3]).into_iter().map(Some).collect::<Vec<_>>());
}

#[test]
fn executed_class_hashes_are_those_of_all_trees() {
    let info = TransactionExecutionInfo {
        validate_call_info: Some(tree(1, vec![tree(2, vec![])])),
        execute_call_info: Some(tree(3, vec![tree(1, vec![tree(4, vec![])]), tree(2, vec![])])),
        fee_transfer_call_info: Some(tree(5, vec![tree(3, vec![])])),
        ..Default::default()
    };
    assert_eq!(info.get_executed_class_hashes(), hashes(vec![1, 2, 3, 4, 5]));
    // Each tree gives the hashes of its own nodes.
    let mut by_tree = info.validate_call_info.as_ref().unwrap().get_executed_class_hashes();
    by_tree.extend(info.execute_call_info.as_ref().unwrap().get_executed_class_hashes());
    by_tree.extend(info.fee_transfer_call_info.as_ref().unwrap().get_executed_class_hashes());
    assert_eq!(by_tree, hashes(vec![1, 2, 3, 1, 4, 2, 5, 3]));
}

#[test]
fn executed_class_hashes_without_calls_are_none() {
    assert_eq!(TransactionExecutionInfo::default().get_executed_class_hashes(), vec![]);
    let info = TransactionExecutionInfo {
        execute_call_info: Some(tree(9, vec![])),
        ..Default::default()
    };
    assert_eq!(info.get_executed_class_hashes(), hashes(vec![9]));
}

#[test]
fn version_zero_is_told_from_the_others() {
    let mut context = AccountTransactionContext::default();
    assert!(context.is_v0());
    context.version = TransactionVersion(Felt::from_u128(1));
    assert!(!context.is_v0());
    context.version = TransactionVersion(Felt { hi: 1, lo: 0 });
    assert!(!context.is_v0());
    context.version = TransactionVersion(Felt { hi: 0, lo: 0 });
    assert!(context.is_v0());
}
