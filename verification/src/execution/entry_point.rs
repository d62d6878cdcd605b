//! A call into a contract, and the record of what it did.
use vstd::prelude::*;
use crate::primitives::{
    ClassHash, ContractAddress, EntryPointSelector, EntryPointType, Felt, StorageKey,
};
use crate::sets::{distinct, insert_class_hash, insert_storage_key};

verus! {

/// How the called code relates to the storage it works on.
#[derive(Clone, Copy, Debug, PartialEq, Eq, Structural, Hash, Default)]
pub enum CallType {
    /// The code of the contract whose storage is used.
    #[default]
    Call,
    /// Code of another class, run on the caller's storage.
    Delegate,
}

/// One invocation of an entry point.
#[derive(Clone, Debug, PartialEq, Eq, Default)]
pub struct CallEntryPoint {
    /// The class to run; `None` where the class of `storage_address` is meant.
    pub class_hash: Option<ClassHash>,
    /// The contract whose code runs, where it differs from `storage_address`.
    pub code_address: Option<ContractAddress>,
    pub entry_point_type: EntryPointType,
    pub entry_point_selector: EntryPointSelector,
    pub calldata: Vec<Felt>,
    pub storage_address: ContractAddress,
    pub caller_address: ContractAddress,
    pub call_type: CallType,
    /// The resources that the call may use.
    pub initial_gas: u64,
}

/// A message from the contract to the settlement layer.
#[derive(Clone, Debug, PartialEq, Eq, Default)]
pub struct MessageToL1 {
    pub to_address: Felt,
    pub payload: Vec<Felt>,
}

/// An event that a call emitted.
#[derive(Clone, Debug, PartialEq, Eq, Default)]
pub struct Event {
    pub keys: Vec<Felt>,
    pub data: Vec<Felt>,
}

/// What a call returned and emitted.
#[derive(Clone, Debug, PartialEq, Eq, Default)]
pub struct CallExecution {
    pub retdata: Vec<Felt>,
    pub events: Vec<Event>,
    pub l2_to_l1_messages: Vec<MessageToL1>,
    pub failed: bool,
    pub gas_consumed: u64,
}

impl CallExecution {
    /// The outcome of a call that succeeded, returned the given data and
    /// emitted nothing.
    pub fn from_retdata(retdata: Vec<Felt>) -> (r: CallExecution)
        ensures
            r.retdata == retdata,
            r.events@.len() == 0,
            r.l2_to_l1_messages@.len() == 0,
            !r.failed,
            r.gas_consumed == 0,
    {
        CallExecution {
            retdata,
            events: Vec::new(),
            l2_to_l1_messages: Vec::new(),
            failed: false,
            gas_consumed: 0,
        }
    }
}

/// The resources that an execution used.
#[derive(Clone, Debug, PartialEq, Eq, Default)]
pub struct ExecutionResources {
    pub n_steps: usize,
    pub n_memory_holes: usize,
    /// For each builtin that was used, its name and the number of its
    /// invocations.
    pub builtin_instance_counter: Vec<(String, usize)>,
}

/// The record of one call: what was called, what came of it, and the calls
/// that it made, in the order in which it made them.
#[derive(Debug, PartialEq, Eq, Default)]
pub struct CallInfo {
    pub call: CallEntryPoint,
    pub execution: CallExecution,
    /// The resources that this call used.
    pub vm_resources: ExecutionResources,
    pub inner_calls: Vec<CallInfo>,
    /// The values read from storage, in the order of the reads; a read made
    /// just before a write counts.
    pub storage_read_values: Vec<Felt>,
    /// The storage keys that this call touched, each once.
    pub accessed_storage_keys: Vec<StorageKey>,
}

/// The nodes of the first `n` subtrees of `c`, each subtree in pre-order.
pub open spec fn preorder_of_children(c: CallInfo, n: nat) -> Seq<CallInfo>
    decreases c, n,
{
    if n == 0 || n > c.inner_calls@.len() {
        Seq::empty()
    } else {
        preorder_of_children(c, (n - 1) as nat) + preorder(c.inner_calls@[n - 1])
    }
}

/// The nodes of the tree under `c` in pre-order: `c` itself, then the subtree of
/// each of its inner calls, in the order of the calls.
pub open spec fn preorder(c: CallInfo) -> Seq<CallInfo>
    decreases c, c.inner_calls@.len() + 1,
{
    seq![c] + preorder_of_children(c, c.inner_calls@.len())
}

/// The values behind a sequence of references.
pub open spec fn targets(refs: Seq<&CallInfo>) -> Seq<CallInfo> {
    refs.map_values(|r: &CallInfo| *r)
}

/// The class hashes that serve the given nodes.
pub open spec fn class_hashes_of(nodes: Seq<CallInfo>) -> Set<ClassHash> {
    Set::new(
        |h: ClassHash|
            exists|i: int| 0 <= i < nodes.len() && #[trigger] nodes[i].call.class_hash == Some(h),
    )
}

/// The class hashes that serve the given nodes, node after node; a node
/// without a class hash gives none.
pub open spec fn class_hash_seq(nodes: Seq<CallInfo>) -> Seq<ClassHash>
    decreases nodes.len(),
{
    if nodes.len() == 0 {
        Seq::empty()
    } else {
        match nodes.last().call.class_hash {
            Some(h) => class_hash_seq(nodes.drop_last()).push(h),
            None => class_hash_seq(nodes.drop_last()),
        }
    }
}

/// The storage keys that the given nodes touched, node after node.
pub open spec fn storage_key_seq(nodes: Seq<CallInfo>) -> Seq<StorageKey>
    decreases nodes.len(),
{
    if nodes.len() == 0 {
        Seq::empty()
    } else {
        storage_key_seq(nodes.drop_last()) + nodes.last().accessed_storage_keys@
    }
}

/// The storage keys that the given nodes touched.
pub open spec fn storage_keys_of(nodes: Seq<CallInfo>) -> Set<StorageKey> {
    Set::new(
        |k: StorageKey|
            exists|i: int|
                0 <= i < nodes.len() && (#[trigger] nodes[i]).accessed_storage_keys@.contains(k),
    )
}

/// The values that the given nodes read from storage, node after node.
pub open spec fn storage_reads_of(nodes: Seq<CallInfo>) -> Seq<Felt>
    decreases nodes.len(),
{
    if nodes.len() == 0 {
        Seq::empty()
    } else {
        storage_reads_of(nodes.drop_last()) + nodes.last().storage_read_values@
    }
}

/// The class hashes of the first `n + 1` nodes are those of the first `n` and
/// that of node `n`.
pub proof fn lemma_class_hashes_step(nodes: Seq<CallInfo>, n: int)
    requires
        0 <= n < nodes.len(),
    ensures
        class_hashes_of(nodes.take(n + 1)) == (match nodes[n].call.class_hash {
            Some(h) => class_hashes_of(nodes.take(n)).insert(h),
            None => class_hashes_of(nodes.take(n)),
        }),
{
    let a = nodes.take(n);
    let b = nodes.take(n + 1);
    let want = match nodes[n].call.class_hash {
        Some(h) => class_hashes_of(a).insert(h),
        None => class_hashes_of(a),
    };
    assert forall|h: ClassHash| class_hashes_of(b).contains(h) <==> want.contains(h) by {
        if class_hashes_of(b).contains(h) {
            let i = choose|i: int| 0 <= i < b.len() && #[trigger] b[i].call.class_hash == Some(h);
            if i < n {
                assert(a[i].call.class_hash == Some(h));
            }
        }
        if class_hashes_of(a).contains(h) {
            let i = choose|i: int| 0 <= i < a.len() && #[trigger] a[i].call.class_hash == Some(h);
            assert(b[i].call.class_hash == Some(h));
        }
        if nodes[n].call.class_hash == Some(h) {
            assert(b[n].call.class_hash == Some(h));
        }
    }
    assert(class_hashes_of(b) =~= want);
}

/// The storage keys of the first `n + 1` nodes are those of the first `n` and
/// those of node `n`.
pub proof fn lemma_storage_keys_step(nodes: Seq<CallInfo>, n: int)
    requires
        0 <= n < nodes.len(),
    ensures
        storage_keys_of(nodes.take(n + 1)) == storage_keys_of(nodes.take(n)).union(
            nodes[n].accessed_storage_keys@.to_set(),
        ),
{
    let a = nodes.take(n);
    let b = nodes.take(n + 1);
    let want = storage_keys_of(a).union(nodes[n].accessed_storage_keys@.to_set());
    assert forall|k: StorageKey| storage_keys_of(b).contains(k) <==> want.contains(k) by {
        if storage_keys_of(b).contains(k) {
            let i = choose|i: int|
                0 <= i < b.len() && (#[trigger] b[i]).accessed_storage_keys@.contains(k);
            if i < n {
                assert(a[i].accessed_storage_keys@.contains(k));
            }
        }
        if storage_keys_of(a).contains(k) {
            let i = choose|i: int|
                0 <= i < a.len() && (#[trigger] a[i]).accessed_storage_keys@.contains(k);
            assert(b[i].accessed_storage_keys@.contains(k));
        }
        if nodes[n].accessed_storage_keys@.contains(k) {
            assert(b[n].accessed_storage_keys@.contains(k));
        }
    }
    assert(storage_keys_of(b) =~= want);
}

/// The class hashes of two runs of nodes, one after the other, are those of
/// both.
pub proof fn lemma_class_hashes_concat(a: Seq<CallInfo>, b: Seq<CallInfo>)
    ensures
        class_hashes_of(a + b) == class_hashes_of(a).union(class_hashes_of(b)),
{
    let t = a + b;
    let want = class_hashes_of(a).union(class_hashes_of(b));
    assert forall|h: ClassHash| class_hashes_of(t).contains(h) <==> want.contains(h) by {
        if class_hashes_of(t).contains(h) {
            let i = choose|i: int| 0 <= i < t.len() && #[trigger] t[i].call.class_hash == Some(h);
            if i < a.len() {
                assert(a[i].call.class_hash == Some(h));
            } else {
                assert(b[i - a.len()].call.class_hash == Some(h));
            }
        }
        if class_hashes_of(a).contains(h) {
            let i = choose|i: int| 0 <= i < a.len() && #[trigger] a[i].call.class_hash == Some(h);
            assert(t[i].call.class_hash == Some(h));
        }
        if class_hashes_of(b).contains(h) {
            let i = choose|i: int| 0 <= i < b.len() && #[trigger] b[i].call.class_hash == Some(h);
            assert(t[a.len() + i].call.class_hash == Some(h));
        }
    }
    assert(class_hashes_of(t) =~= want);
}

impl Clone for CallInfo {
    /// A copy of the whole tree.
    fn clone(&self) -> (r: Self)
        decreases self,
    {
        let mut inner_calls: Vec<CallInfo> = Vec::new();
        let mut i: usize = 0;
        while i < self.inner_calls.len()
            invariant
                i <= self.inner_calls@.len(),
            decreases self.inner_calls@.len() - i,
        {
            inner_calls.push(self.inner_calls[i].clone());
            i += 1;
        }
        CallInfo {
            call: self.call.clone(),
            execution: self.execution.clone(),
            vm_resources: self.vm_resources.clone(),
            inner_calls,
            storage_read_values: self.storage_read_values.clone(),
            accessed_storage_keys: self.accessed_storage_keys.clone(),
        }
    }
}

impl CallInfo {
    /// Appends the nodes of this tree to `out`, in pre-order.
    fn collect<'a>(&'a self, out: &mut Vec<&'a CallInfo>)
        ensures
            targets(final(out)@) == targets(old(out)@) + preorder(*self),
        decreases self,
    {
        out.push(self);
        assert(targets(out@) =~= targets(old(out)@) + seq![*self]);
        let n = self.inner_calls.len();
        let mut i: usize = 0;
        while i < n
            invariant
                n == self.inner_calls@.len(),
                i <= n,
                targets(out@) == targets(old(out)@) + seq![*self] + preorder_of_children(
                    *self,
                    i as nat,
                ),
            decreases n - i,
        {
            let ghost before = targets(out@);
            self.inner_calls[i].collect(out);
            assert(targets(out@) =~= targets(old(out)@) + seq![*self] + preorder_of_children(
                *self,
                (i + 1) as nat,
            ));
            i += 1;
        }
        assert(targets(out@) =~= targets(old(out)@) + preorder(*self));
    }

    /// The nodes of this tree in pre-order: this call, then for each inner
    /// call, in the order in which they were made, the nodes of its tree.
    pub fn iter(&self) -> (r: Vec<&CallInfo>)
        ensures
            targets(r@) == preorder(*self),
    {
        let mut out: Vec<&CallInfo> = Vec::new();
        self.collect(&mut out);
        assert(targets(out@) =~= preorder(*self));
        out
    }

    /// The class hashes that were executed in this tree: for each node, the
    /// hash of the class that served it. Each hash stands once, where it first
    /// occurs in pre-order.
    pub fn get_executed_class_hashes(&self) -> (r: Vec<ClassHash>)
        ensures
            r@ == distinct(class_hash_seq(preorder(*self))),
            r@.no_duplicates(),
            r@.to_set() == class_hashes_of(preorder(*self)),
    {
        let nodes = self.iter();
        let ghost all = preorder(*self);
        let mut out: Vec<ClassHash> = Vec::new();
        let mut i: usize = 0;
        assert(out@.to_set() =~= class_hashes_of(all.take(0)));
        assert(out@ =~= distinct(class_hash_seq(all.take(0))));
        while i < nodes.len()
            invariant
                i <= nodes@.len(),
                targets(nodes@) == all,
                out@ == distinct(class_hash_seq(all.take(i as int))),
                out@.no_duplicates(),
                out@.to_set() == class_hashes_of(all.take(i as int)),
            decreases nodes@.len() - i,
        {
            proof {
                lemma_class_hashes_step(all, i as int);
                assert(all[i as int] == *nodes@[i as int]);
                assert(all.take(i + 1).drop_last() =~= all.take(i as int));
                assert(all.take(i + 1).last() == all[i as int]);
                if all[i as int].call.class_hash is Some {
                    let hashes = class_hash_seq(all.take(i + 1));
                    assert(hashes.drop_last() =~= class_hash_seq(all.take(i as int)));
                }
            }
            match nodes[i].call.class_hash {
                Some(h) => insert_class_hash(&mut out, h),
                None => {},
            }
            i += 1;
        }
        assert(all.take(i as int) =~= all);
        out
    }

    /// The storage keys that were touched in this tree, each once, where it
    /// first occurs in pre-order.
    pub fn get_accessed_storage_keys(&self) -> (r: Vec<StorageKey>)
        ensures
            r@ == distinct(storage_key_seq(preorder(*self))),
            r@.no_duplicates(),
            r@.to_set() == storage_keys_of(preorder(*self)),
    {
        let nodes = self.iter();
        let ghost all = preorder(*self);
        let mut out: Vec<StorageKey> = Vec::new();
        let mut i: usize = 0;
        assert(out@.to_set() =~= storage_keys_of(all.take(0)));
        assert(out@ =~= distinct(storage_key_seq(all.take(0))));
        while i < nodes.len()
            invariant
                i <= nodes@.len(),
                targets(nodes@) == all,
                out@ == distinct(storage_key_seq(all.take(i as int))),
                out@.no_duplicates(),
                out@.to_set() == storage_keys_of(all.take(i as int)),
            decreases nodes@.len() - i,
        {
            let keys = &nodes[i].accessed_storage_keys;
            let ghost base = out@.to_set();
            let ghost done = storage_key_seq(all.take(i as int));
            let mut j: usize = 0;
            assert(out@.to_set() =~= base.union(keys@.take(0).to_set()));
            assert(done + keys@.take(0) =~= done);
            while j < keys.len()
                invariant
                    j <= keys@.len(),
                    out@ == distinct(done + keys@.take(j as int)),
                    out@.no_duplicates(),
                    out@.to_set() == base.union(keys@.take(j as int).to_set()),
                decreases keys@.len() - j,
            {
                insert_storage_key(&mut out, keys[j]);
                proof {
                    let t0 = keys@.take(j as int);
                    let t1 = keys@.take(j + 1);
                    assert(t1 =~= t0.push(keys@[j as int]));
                    assert((done + t1).drop_last() =~= done + t0);
                    assert((done + t1).last() == keys@[j as int]);
                    assert forall|k: StorageKey| t1.to_set().contains(k) <==> t0.to_set().insert(
                        keys@[j as int],
                    ).contains(k) by {
                        if t1.contains(k) {
                            let x = choose|x: int| 0 <= x < t1.len() && t1[x] == k;
                            if x < j {
                                assert(t0[x] == k);
                            }
                        }
                        if t0.contains(k) {
                            let x = choose|x: int| 0 <= x < t0.len() && t0[x] == k;
                            assert(t1[x] == k);
                        }
                        if k == keys@[j as int] {
                            assert(t1[j as int] == k);
                        }
                    }
                    assert(out@.to_set() =~= base.union(t1.to_set()));
                }
                j += 1;
            }
            proof {
                assert(keys@.take(j as int) =~= keys@);
                lemma_storage_keys_step(all, i as int);
                assert(all[i as int] == *nodes@[i as int]);
                assert(all.take(i + 1).drop_last() =~= all.take(i as int));
                assert(all.take(i + 1).last() == all[i as int]);
            }
            i += 1;
        }
        assert(all.take(i as int) =~= all);
        out
    }

    /// The values read from storage in this tree: those of each node, node
    /// after node in pre-order. A value read twice stands twice.
    pub fn get_storage_read_values(&self) -> (r: Vec<Felt>)
        ensures
            r@ == storage_reads_of(preorder(*self)),
    {
        let nodes = self.iter();
        let ghost all = preorder(*self);
        let mut out: Vec<Felt> = Vec::new();
        let mut i: usize = 0;
        assert(all.take(0) =~= Seq::empty());
        while i < nodes.len()
            invariant
                i <= nodes@.len(),
                targets(nodes@) == all,
                out@ == storage_reads_of(all.take(i as int)),
            decreases nodes@.len() - i,
        {
            let values = &nodes[i].storage_read_values;
            let ghost base = out@;
            let mut j: usize = 0;
            while j < values.len()
                invariant
                    j <= values@.len(),
                    out@ == base + values@.take(j as int),
                decreases values@.len() - j,
            {
                out.push(values[j]);
                assert(values@.take(j + 1) =~= values@.take(j as int).push(values@[j as int]));
                assert(out@ =~= base + values@.take(j + 1));
                j += 1;
            }
            proof {
                assert(values@.take(j as int) =~= values@);
                assert(all[i as int] == *nodes@[i as int]);
                assert(all.take(i + 1).drop_last() =~= all.take(i as int));
                assert(all.take(i + 1).last() == all[i as int]);
            }
            i += 1;
        }
        assert(all.take(i as int) =~= all);
        out
    }
}

} // verus!
