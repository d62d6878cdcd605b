//! What the execution of a transaction leaves behind.
use std::collections::hash_map::RandomState;
use indexmap::IndexMap;
use vstd::prelude::*;
use crate::assoc::{has_key, index_of_key, keys_unique, swap_remove, to_map, upsert, value_of};
use crate::execution::entry_point::{
    class_hash_seq, class_hashes_of, lemma_class_hashes_concat, preorder, targets, CallInfo,
};
use crate::primitives::{
    ClassHash, ContractAddress, Fee, Felt, Nonce, TransactionHash, TransactionVersion,
};
use crate::sets::{dedup_class_hashes, distinct, lemma_concat_to_set};

verus! {

/// A hash map that keeps its pairs in the order in which their keys came.
#[verifier::external_type_specification]
#[verifier::external_body]
#[verifier::reject_recursive_types(K)]
#[verifier::reject_recursive_types(V)]
#[verifier::reject_recursive_types(S)]
pub struct ExIndexMap<K, V, S>(IndexMap<K, V, S>);

/// The pairs that a map of usages holds, in its order.
pub uninterp spec fn index_map_entries(m: IndexMap<String, u64, RandomState>) -> Seq<
    (Seq<char>, u64),
>;

/// The pairs of names and counts in a vector, each name by its characters.
pub open spec fn pairs_view(v: Seq<(String, u64)>) -> Seq<(Seq<char>, u64)> {
    v.map_values(|e: (String, u64)| (e.0@, e.1))
}

/// Calls `IndexMap::default`, which makes a map without pairs.
#[verifier::external_body]
fn index_map_new() -> (r: IndexMap<String, u64, RandomState>)
    ensures
        index_map_entries(r) == Seq::<(Seq<char>, u64)>::empty(),
{
    IndexMap::default()
}

/// Calls `IndexMap::clone`, which copies the pairs in their order.
#[verifier::external_body]
fn index_map_clone(m: &IndexMap<String, u64, RandomState>) -> (r: IndexMap<
    String,
    u64,
    RandomState,
>)
    ensures
        index_map_entries(r) == index_map_entries(*m),
{
    m.clone()
}

/// Calls `IndexMap::insert`. Where the key is there, its value is replaced in
/// its place; where it is not, the pair comes last. The value that was there
/// is returned. As no key stands twice in a map, the map that the pairs stand
/// for changes at the key only.
#[verifier::external_body]
fn index_map_insert(m: &mut IndexMap<String, u64, RandomState>, key: String, value: u64) -> (r:
    Option<u64>)
    ensures
        index_map_entries(*final(m)) == upsert(index_map_entries(*old(m)), key@, value),
        to_map(index_map_entries(*final(m))) == to_map(index_map_entries(*old(m))).insert(
            key@,
            value,
        ),
        r == value_of(index_map_entries(*old(m)), key@),
{
    m.insert(key, value)
}

/// Calls `IndexMap::get`, which returns the value under the key, if there is
/// one.
#[verifier::external_body]
fn index_map_get(m: &IndexMap<String, u64, RandomState>, key: &str) -> (r: Option<u64>)
    ensures
        r == value_of(index_map_entries(*m), key@),
{
    m.get(key).copied()
}

/// Calls `IndexMap::swap_remove`. Where the key is there, its pair leaves, the
/// last pair takes its place, and its value is returned; where it is not,
/// nothing changes. As no key stands twice in a map, the map that the pairs
/// stand for loses the key and nothing else.
#[verifier::external_body]
fn index_map_swap_remove(m: &mut IndexMap<String, u64, RandomState>, key: &str) -> (r: Option<
    u64,
>)
    ensures
        r == value_of(index_map_entries(*old(m)), key@),
        index_map_entries(*final(m)) == (if has_key(index_map_entries(*old(m)), key@) {
            swap_remove(
                index_map_entries(*old(m)),
                index_of_key(index_map_entries(*old(m)), key@),
            )
        } else {
            index_map_entries(*old(m))
        }),
        to_map(index_map_entries(*final(m))) == to_map(index_map_entries(*old(m))).remove(key@),
{
    m.swap_remove(key)
}

/// Calls `IndexMap::iter` and copies each pair out, in the map's order. No
/// key stands twice in a map.
#[verifier::external_body]
fn index_map_pairs(m: &IndexMap<String, u64, RandomState>) -> (r: Vec<(String, u64)>)
    ensures
        pairs_view(r@) == index_map_entries(*m),
        keys_unique(pairs_view(r@)),
{
    m.iter().map(|(k, v)| (k.clone(), *v)).collect()
}

/// Calls `IndexMap::eq`, which holds where both maps have the same value
/// under the same keys, whatever their order.
#[verifier::external_body]
fn index_map_eq(a: &IndexMap<String, u64, RandomState>, b: &IndexMap<String, u64, RandomState>) -> (r:
    bool)
    ensures
        r == (to_map(index_map_entries(*a)) == to_map(index_map_entries(*b))),
{
    a == b
}

/// For each resource that an execution used, by its name, how much of it.
#[derive(Debug)]
pub struct ResourcesMapping(pub IndexMap<String, u64, RandomState>);

impl ResourcesMapping {
    /// The pairs of the mapping, in their order.
    pub open spec fn entries(&self) -> Seq<(Seq<char>, u64)> {
        index_map_entries(self.0)
    }
}

impl View for ResourcesMapping {
    type V = Map<Seq<char>, u64>;

    /// The usage under each name.
    open spec fn view(&self) -> Map<Seq<char>, u64> {
        to_map(self.entries())
    }
}

impl Clone for ResourcesMapping {
    fn clone(&self) -> (r: Self)
        ensures
            r.entries() == self.entries(),
    {
        ResourcesMapping(index_map_clone(&self.0))
    }
}

impl Default for ResourcesMapping {
    fn default() -> (r: Self)
        ensures
            r.entries() == Seq::<(Seq<char>, u64)>::empty(),
    {
        ResourcesMapping(index_map_new())
    }
}

impl PartialEq for ResourcesMapping {
    fn eq(&self, other: &Self) -> (r: bool) {
        index_map_eq(&self.0, &other.0)
    }
}

impl vstd::std_specs::cmp::PartialEqSpecImpl for ResourcesMapping {
    open spec fn obeys_eq_spec() -> bool {
        true
    }

    open spec fn eq_spec(&self, other: &Self) -> bool {
        self@ == other@
    }
}

impl Eq for ResourcesMapping {

}

impl ResourcesMapping {
    /// A mapping without resources.
    pub fn new() -> (r: ResourcesMapping)
        ensures
            r.entries() == Seq::<(Seq<char>, u64)>::empty(),
            r@ == Map::<Seq<char>, u64>::empty(),
    {
        let r = ResourcesMapping(index_map_new());
        assert(r@ =~= Map::<Seq<char>, u64>::empty());
        r
    }

    /// The pairs of the mapping, in their order; no name stands twice.
    pub fn pairs(&self) -> (r: Vec<(String, u64)>)
        ensures
            pairs_view(r@) == self.entries(),
            keys_unique(self.entries()),
    {
        index_map_pairs(&self.0)
    }

    /// The usage under `key`, if the mapping has the key.
    pub fn get(&self, key: &str) -> (r: Option<u64>)
        ensures
            r == value_of(self.entries(), key@),
            r == (if self@.dom().contains(key@) {
                Some(self@[key@])
            } else {
                None
            }),
    {
        index_map_get(&self.0, key)
    }

    /// Puts `value` under `key`: in the key's place where the mapping has it,
    /// last where it has not. Returns the usage that was there.
    pub fn insert(&mut self, key: String, value: u64) -> (r: Option<u64>)
        ensures
            final(self).entries() == upsert(old(self).entries(), key@, value),
            final(self)@ == old(self)@.insert(key@, value),
            r == value_of(old(self).entries(), key@),
    {
        index_map_insert(&mut self.0, key, value)
    }

    /// Takes `key` out, the last pair moving into its place. Returns the usage
    /// that was there.
    pub fn remove(&mut self, key: &str) -> (r: Option<u64>)
        ensures
            r == value_of(old(self).entries(), key@),
            final(self).entries() == (if has_key(old(self).entries(), key@) {
                swap_remove(old(self).entries(), index_of_key(old(self).entries(), key@))
            } else {
                old(self).entries()
            }),
            final(self)@ == old(self)@.remove(key@),
    {
        index_map_swap_remove(&mut self.0, key)
    }
}

/// What the account that sends a transaction says of it.
#[derive(Clone, Debug, Default, PartialEq, Eq)]
pub struct AccountTransactionContext {
    pub transaction_hash: TransactionHash,
    pub max_fee: Fee,
    pub version: TransactionVersion,
    pub signature: Vec<Felt>,
    pub nonce: Nonce,
    pub sender_address: ContractAddress,
}

impl AccountTransactionContext {
    /// Whether the transaction is of version zero.
    pub fn is_v0(&self) -> (r: bool)
        ensures
            r == (self.version.0.value() == 0),
    {
        self.version.0.is_zero()
    }
}

/// Calls `itertools::concat`, which extends the first of the vectors with each
/// of the others in turn, and gives an empty vector where there is none.
#[verifier::external_body]
fn concat_class_hashes(parts: Vec<Vec<ClassHash>>) -> (r: Vec<ClassHash>)
    ensures
        r@ == parts@.map_values(|part: Vec<ClassHash>| part@).flatten(),
{
    itertools::concat(parts)
}

/// The nodes of a call tree that may be absent, in pre-order.
pub open spec fn tree_nodes(tree: Option<CallInfo>) -> Seq<CallInfo> {
    match tree {
        Some(root) => preorder(root),
        None => Seq::empty(),
    }
}

/// The nodes of the trees of the first `n` calls, tree after tree, each in
/// pre-order.
pub open spec fn nodes_of(calls: Seq<CallInfo>, n: nat) -> Seq<CallInfo>
    decreases n,
{
    if n == 0 || n > calls.len() {
        Seq::empty()
    } else {
        nodes_of(calls, (n - 1) as nat) + preorder(calls[n - 1])
    }
}

/// What the execution of a transaction left behind.
#[derive(Debug, Default, Clone, PartialEq, Eq)]
pub struct TransactionExecutionInfo {
    /// The call that validated the transaction; none for an L1 handler.
    pub validate_call_info: Option<CallInfo>,
    /// The call that executed the transaction; none for a declaration.
    pub execute_call_info: Option<CallInfo>,
    /// The call that transferred the fee; none for an L1 handler.
    pub fee_transfer_call_info: Option<CallInfo>,
    /// The fee that was charged, in wei.
    pub actual_fee: Fee,
    /// The resources that the transaction is charged for.
    pub actual_resources: ResourcesMapping,
    /// Why the transaction was reverted; none where it was not.
    pub revert_error: Option<String>,
}

impl TransactionExecutionInfo {
    /// The calls that are there: validation, execution, fee transfer, in this
    /// order.
    pub open spec fn present(&self) -> Seq<CallInfo> {
        (match self.validate_call_info {
            Some(c) => seq![c],
            None => Seq::empty(),
        }) + (match self.execute_call_info {
            Some(c) => seq![c],
            None => Seq::empty(),
        }) + (match self.fee_transfer_call_info {
            Some(c) => seq![c],
            None => Seq::empty(),
        })
    }

    /// The nodes of all call trees of the transaction: those of validation,
    /// of execution and of the fee transfer, each tree in pre-order.
    pub open spec fn all_nodes(&self) -> Seq<CallInfo> {
        tree_nodes(self.validate_call_info) + tree_nodes(self.execute_call_info) + tree_nodes(
            self.fee_transfer_call_info,
        )
    }

    /// The calls that are there: validation, execution, fee transfer, in this
    /// order.
    pub fn non_optional_call_infos(&self) -> (r: Vec<&CallInfo>)
        ensures
            targets(r@) == self.present(),
    {
        let mut call_infos: Vec<&CallInfo> = Vec::new();
        match &self.validate_call_info {
            Some(c) => call_infos.push(c),
            None => {},
        }
        match &self.execute_call_info {
            Some(c) => call_infos.push(c),
            None => {},
        }
        match &self.fee_transfer_call_info {
            Some(c) => call_infos.push(c),
            None => {},
        }
        assert(targets(call_infos@) =~= self.present());
        call_infos
    }

    /// The class hashes of each call that is there, each hash once, where it
    /// first occurs in the call's tree in pre-order.
    pub open spec fn class_hashes_by_call(&self) -> Seq<Seq<ClassHash>> {
        self.present().map_values(|c: CallInfo| distinct(class_hash_seq(preorder(c))))
    }

    /// The class hashes that were executed in the transaction: those of the
    /// nodes of all its call trees, each hash once, where it first occurs as
    /// the trees are walked one after the other.
    pub fn get_executed_class_hashes(&self) -> (r: Vec<ClassHash>)
        ensures
            r@ == distinct(self.class_hashes_by_call().flatten()),
            r@.no_duplicates(),
            r@.to_set() == class_hashes_of(self.all_nodes()),
    {
        let call_infos = self.non_optional_call_infos();
        let ghost calls = self.present();
        proof {
            lemma_all_nodes(*self);
        }
        let mut parts: Vec<Vec<ClassHash>> = Vec::new();
        let mut i: usize = 0;
        assert(parts@.map_values(|part: Vec<ClassHash>| part@) =~= Seq::empty());
        assert(Seq::<Seq<ClassHash>>::empty().flatten() =~= Seq::empty());
        assert(class_hashes_of(nodes_of(calls, 0)) =~= Set::empty());
        assert(Seq::<ClassHash>::empty().to_set() =~= Set::empty());
        while i < call_infos.len()
            invariant
                i <= call_infos@.len(),
                targets(call_infos@) == calls,
                parts@.map_values(|part: Vec<ClassHash>| part@) == calls.take(i as int).map_values(
                    |c: CallInfo| distinct(class_hash_seq(preorder(c))),
                ),
                parts@.map_values(|part: Vec<ClassHash>| part@).flatten().to_set()
                    == class_hashes_of(nodes_of(calls, i as nat)),
            decreases call_infos@.len() - i,
        {
            let ghost before = parts@.map_values(|part: Vec<ClassHash>| part@);
            proof {
                assert(calls[i as int] == *call_infos@[i as int]);
            }
            let part = call_infos[i].get_executed_class_hashes();
            parts.push(part);
            proof {
                let after = parts@.map_values(|part: Vec<ClassHash>| part@);
                assert(after =~= before.push(part@));
                before.lemma_flatten_push(part@);
                lemma_concat_to_set(before.flatten(), part@);
                lemma_class_hashes_concat(nodes_of(calls, i as nat), preorder(calls[i as int]));
            }
            i += 1;
        }
        assert(calls.take(i as int) =~= calls);
        dedup_class_hashes(&concat_class_hashes(parts))
    }

    /// Whether the transaction was reverted.
    pub fn is_reverted(&self) -> (r: bool)
        ensures
            r == self.revert_error is Some,
    {
        self.revert_error.is_some()
    }
}

/// The nodes of all call trees of a transaction are those of the calls that
/// are there.
pub proof fn lemma_all_nodes(info: TransactionExecutionInfo)
    ensures
        info.all_nodes() == nodes_of(info.present(), info.present().len()),
{
    let calls = info.present();
    reveal_with_fuel(nodes_of, 4);
    assert(info.all_nodes() =~= nodes_of(calls, calls.len()));
}

/// The class hashes that a transaction executed are those of its validation,
/// of its execution and of its fee transfer together, each tree giving the
/// hashes of all its nodes.
pub proof fn lemma_executed_class_hashes_by_tree(info: TransactionExecutionInfo)
    ensures
        class_hashes_of(info.all_nodes()) == class_hashes_of(
            tree_nodes(info.validate_call_info),
        ).union(class_hashes_of(tree_nodes(info.execute_call_info))).union(
            class_hashes_of(tree_nodes(info.fee_transfer_call_info)),
        ),
{
    let a = tree_nodes(info.validate_call_info);
    let b = tree_nodes(info.execute_call_info);
    let c = tree_nodes(info.fee_transfer_call_info);
    lemma_class_hashes_concat(a, b);
    lemma_class_hashes_concat(a + b, c);
}

} // verus!
