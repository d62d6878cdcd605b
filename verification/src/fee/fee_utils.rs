//! The fee of a transaction from the resources that it used.
use vstd::prelude::*;
use crate::abi::constants;
use crate::assoc::{
    has_key, index_of_key, keys_unique, lemma_swap_remove, lemma_upsert, swap_remove, to_map,
    upsert,
};
use crate::block_context::BlockContext;
use crate::fee::fixed_point::{
    lemma_mul_floor_of_whole, lemma_mul_int_of_whole, lemma_saturating_ceil_is_exact, unit,
    whole_units_up, FixedU128, DIV,
};
use crate::primitives::Fee;
use crate::transaction::errors::TransactionExecutionError;
use crate::transaction::objects::{pairs_view, ResourcesMapping};

verus! {

/// The usage under `key`, and zero where the mapping has no such key.
pub open spec fn usage_of(usage: Map<Seq<char>, u64>, key: Seq<char>) -> u64 {
    if usage.dom().contains(key) {
        usage[key]
    } else {
        0
    }
}

/// The L1 gas, in units of the fixed point, that `usage` units of a resource
/// cost at `cost` units each: the product of the two.
pub open spec fn weighted_cost(usage: u64, cost: u128) -> nat {
    usage as nat * cost as nat
}

/// Whether each resource that was used has a price.
pub open spec fn all_priced(usage: Map<Seq<char>, u64>, costs: Seq<(Seq<char>, u128)>) -> bool {
    forall|k: Seq<char>| usage.dom().contains(k) ==> has_key(costs, k)
}

/// Whether the cost of one of the first `n` priced resources is beyond the
/// largest fixed point number.
pub open spec fn cost_overflows(
    costs: Seq<(Seq<char>, u128)>,
    usage: Map<Seq<char>, u64>,
    n: int,
) -> bool {
    exists|i: int|
        0 <= i < n && i < costs.len() && weighted_cost(
            usage_of(usage, (#[trigger] costs[i]).0),
            costs[i].1,
        ) > u128::MAX
}

/// The largest cost among the first `n` priced resources, and zero where
/// there is none.
pub open spec fn weighted_max(
    costs: Seq<(Seq<char>, u128)>,
    usage: Map<Seq<char>, u64>,
    n: nat,
) -> nat
    decreases n,
{
    if n == 0 || n > costs.len() {
        0
    } else {
        let before = weighted_max(costs, usage, (n - 1) as nat);
        let this = weighted_cost(usage_of(usage, costs[n - 1].0), costs[n - 1].1);
        if this >= before {
            this
        } else {
            before
        }
    }
}

/// The L1 gas that the resources in `usage` cost at the prices in `costs`: the
/// largest cost of a single resource, as the heaviest resource decides the
/// size of a proof.
pub open spec fn l1_gas_by_vm_usage(
    costs: Seq<(Seq<char>, u128)>,
    usage: Map<Seq<char>, u64>,
) -> Result<FixedU128, TransactionExecutionError> {
    if !all_priced(usage, costs) {
        Err(TransactionExecutionError::CairoResourcesNotContainedInFeeCosts)
    } else if cost_overflows(costs, usage, costs.len() as int) {
        Err(TransactionExecutionError::FixedPointConversion)
    } else {
        Ok(FixedU128 { inner: weighted_max(costs, usage, costs.len()) as u128 })
    }
}

/// The fee for a whole number of units of gas at the given price: the
/// product of the two, and not above the largest fee.
pub open spec fn fee_for(gas_units: nat, gas_price: u128) -> Fee {
    if gas_units * gas_price as nat > u128::MAX {
        Fee(u128::MAX)
    } else {
        Fee((gas_units * gas_price as nat) as u128)
    }
}

/// The fee for the resources in `usage`, which holds the L1 gas used directly,
/// at the prices in `costs` and the given price of gas: the L1 gas used
/// directly and that of the other resources, rounded up to a whole unit of
/// gas, times the price of gas, and not above the largest fee. It fails where
/// a resource has no price, and where a cost or the total does not fit the
/// fixed point.
pub open spec fn tx_fee(
    usage: Map<Seq<char>, u64>,
    costs: Seq<(Seq<char>, u128)>,
    gas_price: u128,
) -> Result<Fee, TransactionExecutionError> {
    let l1_gas_usage = usage[constants::GAS_USAGE@] as nat;
    match l1_gas_by_vm_usage(costs, usage.remove(constants::GAS_USAGE@)) {
        Err(e) => Err(e),
        Ok(by_vm_usage) => if l1_gas_usage * unit() + by_vm_usage.inner > u128::MAX {
            Err(TransactionExecutionError::FixedPointConversion)
        } else {
            Ok(fee_for(whole_units_up(l1_gas_usage * unit() + by_vm_usage.inner as nat), gas_price))
        },
    }
}

/// The resources without the L1 gas that was used directly.
fn without_l1_gas(resources: &ResourcesMapping) -> (r: ResourcesMapping)
    ensures
        r@ == resources@.remove(constants::GAS_USAGE@),
        r.entries() == (if has_key(resources.entries(), constants::GAS_USAGE@) {
            swap_remove(
                resources.entries(),
                index_of_key(resources.entries(), constants::GAS_USAGE@),
            )
        } else {
            resources.entries()
        }),
{
    let mut vm_resource_usage = resources.clone();
    let _ = vm_resource_usage.remove(constants::GAS_USAGE);
    vm_resource_usage
}

/// Takes the L1 gas that was used directly out of the resources: returns it
/// and the other resources. Every mapping that is charged holds that key; the
/// gas must fit the machine word in which it is returned.
pub fn extract_l1_gas_and_vm_usage(resources: &ResourcesMapping) -> (r: (usize, ResourcesMapping))
    requires
        resources@.dom().contains(constants::GAS_USAGE@),
        resources@[constants::GAS_USAGE@] <= usize::MAX,
    ensures
        r.0 == resources@[constants::GAS_USAGE@],
        r.1@ == resources@.remove(constants::GAS_USAGE@),
        r.1.entries() == swap_remove(
            resources.entries(),
            index_of_key(resources.entries(), constants::GAS_USAGE@),
        ),
{
    let mut vm_resource_usage = resources.clone();
    match vm_resource_usage.remove(constants::GAS_USAGE) {
        Some(l1_gas_usage) => (l1_gas_usage as usize, vm_resource_usage),
        None => unreached(),
    }
}

/// Takes the L1 gas that was used directly out of the resources, where they
/// hold it and it fits the machine word: returns it and the other resources,
/// or `None` where they do not hold it or it does not fit.
pub fn try_extract_l1_gas_and_vm_usage(resources: &ResourcesMapping) -> (r: Option<
    (usize, ResourcesMapping),
>)
    ensures
        r is Some <==> resources@.dom().contains(constants::GAS_USAGE@)
            && resources@[constants::GAS_USAGE@] <= usize::MAX,
        r matches Some(pair) ==> {
            &&& pair.0 == resources@[constants::GAS_USAGE@]
            &&& pair.1@ == resources@.remove(constants::GAS_USAGE@)
            &&& pair.1.entries() == swap_remove(
                resources.entries(),
                index_of_key(resources.entries(), constants::GAS_USAGE@),
            )
        },
{
    match resources.get(constants::GAS_USAGE) {
        Some(l1_gas_usage) => if l1_gas_usage <= usize::MAX as u64 {
            Some(extract_l1_gas_and_vm_usage(resources))
        } else {
            None
        },
        None => None,
    }
}

/// Whether `key` is the name of a priced resource.
fn is_priced(costs: &Vec<(String, FixedU128)>, key: &String) -> (r: bool)
    ensures
        r == has_key(costs@.map_values(|e: (String, FixedU128)| (e.0@, e.1.inner)), key@),
{
    let ghost view = costs@.map_values(|e: (String, FixedU128)| (e.0@, e.1.inner));
    let mut j: usize = 0;
    while j < costs.len()
        invariant
            j <= costs@.len(),
            view == costs@.map_values(|e: (String, FixedU128)| (e.0@, e.1.inner)),
            forall|x: int| 0 <= x < j ==> (#[trigger] view[x]).0 != key@,
        decreases costs@.len() - j,
    {
        if costs[j].0 == *key {
            assert(view[j as int].0 == key@);
            return true;
        }
        j += 1;
    }
    false
}

/// The L1 gas that submitting the execution for proving costs: the largest
/// cost of a single resource. Fails where a resource that was used has no
/// price, and where a cost does not fit the fixed point. The table of prices
/// is a mapping: no resource is priced twice.
pub fn calculate_l1_gas_by_vm_usage(
    block_context: &BlockContext,
    vm_resource_usage: &ResourcesMapping,
) -> (r: Result<FixedU128, TransactionExecutionError>)
    requires
        block_context.wf(),
    ensures
        r == l1_gas_by_vm_usage(block_context.fee_costs(), vm_resource_usage@),
{
    let costs = &block_context.vm_resource_fee_cost;
    let ghost priced = block_context.fee_costs();
    let ghost usage = vm_resource_usage@;
    let names = vm_resource_usage.pairs();
    let mut i: usize = 0;
    while i < names.len()
        invariant
            i <= names@.len(),
            priced == block_context.fee_costs(),
            usage == vm_resource_usage@,
            costs == &block_context.vm_resource_fee_cost,
            pairs_view(names@) == vm_resource_usage.entries(),
            forall|x: int| 0 <= x < i ==> has_key(priced, (#[trigger] pairs_view(names@)[x]).0),
        decreases names@.len() - i,
    {
        if !is_priced(costs, &names[i].0) {
            proof {
                let k = pairs_view(names@)[i as int].0;
                assert(vm_resource_usage.entries()[i as int].0 == k);
                assert(has_key(vm_resource_usage.entries(), k));
                assert(usage.dom().contains(k));
            }
            return Err(TransactionExecutionError::CairoResourcesNotContainedInFeeCosts);
        }
        i += 1;
    }
    proof {
        assert forall|k: Seq<char>| usage.dom().contains(k) implies has_key(priced, k) by {
            let x = index_of_key(vm_resource_usage.entries(), k);
            assert(pairs_view(names@)[x].0 == k);
        }
    }
    let mut heaviest = FixedU128::zero();
    let mut j: usize = 0;
    while j < costs.len()
        invariant
            j <= costs@.len(),
            priced == block_context.fee_costs(),
            usage == vm_resource_usage@,
            costs == &block_context.vm_resource_fee_cost,
            all_priced(usage, priced),
            !cost_overflows(priced, usage, j as int),
            heaviest.inner == weighted_max(priced, usage, j as nat),
        decreases costs@.len() - j,
    {
        let key_resource_usage: u64 = match vm_resource_usage.get(costs[j].0.as_str()) {
            Some(n) => n,
            None => 0,
        };
        assert(priced[j as int] == (costs@[j as int].0@, costs@[j as int].1.inner));
        assert(key_resource_usage == usage_of(usage, priced[j as int].0));
        assert(key_resource_usage as u128 * DIV <= u128::MAX) by (nonlinear_arith)
            requires
                key_resource_usage <= u64::MAX,
                DIV == 1_000_000_000_000_000_000,
        ;
        proof {
            lemma_mul_floor_of_whole(key_resource_usage as nat, costs@[j as int].1.inner as nat);
        }
        let weighted = match FixedU128::checked_from_integer(key_resource_usage as u128) {
            Some(in_fixed_point) => in_fixed_point.checked_mul(costs[j].1),
            None => None,
        };
        match weighted {
            Some(w) => {
                heaviest = w.max(heaviest);
            },
            None => {
                assert(cost_overflows(priced, usage, priced.len() as int));
                return Err(TransactionExecutionError::FixedPointConversion);
            },
        }
        j += 1;
    }
    Ok(heaviest)
}

/// The fee to charge for the resources that a transaction used: the L1 gas
/// that it used directly and the L1 gas that its other resources cost,
/// rounded up to a whole unit of gas, times the price of gas.
pub fn calculate_tx_fee(resources: &ResourcesMapping, block_context: &BlockContext) -> (r: Result<
    Fee,
    TransactionExecutionError,
>)
    requires
        resources@.dom().contains(constants::GAS_USAGE@),
        block_context.wf(),
    ensures
        r == tx_fee(resources@, block_context.fee_costs(), block_context.gas_price),
{
    let l1_gas_usage: u64 = match resources.get(constants::GAS_USAGE) {
        Some(l1_gas_usage) => l1_gas_usage,
        None => unreached(),
    };
    let vm_resources = without_l1_gas(resources);
    let l1_gas_by_vm_usage = match calculate_l1_gas_by_vm_usage(block_context, &vm_resources) {
        Ok(gas) => gas,
        Err(e) => {
            return Err(e);
        },
    };
    assert(l1_gas_usage as u128 * DIV <= u128::MAX) by (nonlinear_arith)
        requires
            l1_gas_usage <= u64::MAX,
            DIV == 1_000_000_000_000_000_000,
    ;
    let direct = match FixedU128::checked_from_integer(l1_gas_usage as u128) {
        Some(gas) => gas,
        None => unreached(),
    };
    let total_l1_gas_usage = match direct.checked_add(l1_gas_by_vm_usage) {
        Some(total) => total,
        None => {
            return Err(TransactionExecutionError::FixedPointConversion);
        },
    };
    let largest_whole: u128 = u128::MAX / DIV;
    let gas_price = block_context.gas_price;
    let ghost units = whole_units_up(total_l1_gas_usage.inner as nat);
    if total_l1_gas_usage.into_inner() > largest_whole * DIV {
        // The next whole number is beyond the fixed point, and still a number
        // of units of gas.
        assert(units == largest_whole + 1) by (nonlinear_arith)
            requires
                units == whole_units_up(total_l1_gas_usage.inner as nat),
                total_l1_gas_usage.inner > largest_whole * DIV,
                total_l1_gas_usage.inner <= u128::MAX,
                largest_whole == u128::MAX / DIV,
                DIV == 1_000_000_000_000_000_000,
        ;
        match (largest_whole + 1).checked_mul(gas_price) {
            Some(fee) => Ok(Fee(fee)),
            None => Ok(Fee(u128::MAX)),
        }
    } else {
        proof {
            lemma_saturating_ceil_is_exact(total_l1_gas_usage.inner as nat);
            lemma_mul_int_of_whole(units, gas_price as nat);
        }
        Ok(Fee(total_l1_gas_usage.ceil().saturating_mul_int(gas_price)))
    }
}

/// The fee to charge for the resources that a transaction used, where they
/// hold the L1 gas that was used directly and no resource is priced twice:
/// see `calculate_tx_fee`. `None` where either fails.
pub fn try_calculate_tx_fee(resources: &ResourcesMapping, block_context: &BlockContext) -> (r:
    Option<Result<Fee, TransactionExecutionError>>)
    ensures
        r == (if resources@.dom().contains(constants::GAS_USAGE@) && block_context.wf() {
            Some(tx_fee(resources@, block_context.fee_costs(), block_context.gas_price))
        } else {
            None
        }),
{
    match resources.get(constants::GAS_USAGE) {
        Some(_) => if block_context.has_unique_fee_costs() {
            Some(calculate_tx_fee(resources, block_context))
        } else {
            None
        },
        None => None,
    }
}

/// Putting the L1 gas that was taken out back under its key gives the
/// mapping that it was taken from: the same usage under the same names.
pub proof fn lemma_extract_then_insert(entries: Seq<(Seq<char>, u64)>, key: Seq<char>)
    requires
        keys_unique(entries),
        has_key(entries, key),
    ensures
        ({
            let at = index_of_key(entries, key);
            to_map(upsert(swap_remove(entries, at), key, entries[at].1)) == to_map(entries)
        }),
{
    let at = index_of_key(entries, key);
    let rest = swap_remove(entries, at);
    lemma_swap_remove(entries, at);
    lemma_upsert(rest, key, entries[at].1);
    assert(to_map(entries).remove(key).insert(key, entries[at].1) =~= to_map(entries));
}

/// A resource that was used and has no price makes the fee fail, whatever
/// its usage and whatever else was used.
pub proof fn lemma_unpriced_resource_fails(
    usage: Map<Seq<char>, u64>,
    costs: Seq<(Seq<char>, u128)>,
    gas_price: u128,
    key: Seq<char>,
)
    requires
        usage.dom().contains(key),
        key != constants::GAS_USAGE@,
        !has_key(costs, key),
    ensures
        l1_gas_by_vm_usage(costs, usage) == Err::<FixedU128, TransactionExecutionError>(
            TransactionExecutionError::CairoResourcesNotContainedInFeeCosts,
        ),
        tx_fee(usage, costs, gas_price) == Err::<Fee, TransactionExecutionError>(
            TransactionExecutionError::CairoResourcesNotContainedInFeeCosts,
        ),
{
    assert(usage.remove(constants::GAS_USAGE@).dom().contains(key));
}

/// Rounding to whole units of gas never rounds down: a total strictly between
/// `whole` and `whole + 1` units of gas is charged as `whole + 1` units.
pub proof fn lemma_fee_rounds_up(total: nat, whole: nat, gas_price: u128)
    requires
        whole * unit() < total < (whole + 1) * unit(),
    ensures
        whole_units_up(total) == whole + 1,
        fee_for(whole_units_up(total), gas_price) == fee_for(whole + 1, gas_price),
{
    let d = DIV as int;
    let t = total as int;
    let w = whole as int;
    assert(t % d != 0 && t / d == w) by (nonlinear_arith)
        requires
            w * d < t < (w + 1) * d,
            d > 0,
            w >= 0,
    ;
}

/// The fee never rests on a total that was rounded down: where the resources
/// are priced and their total, which fits the fixed point, lies strictly
/// between `whole` and `whole + 1` units of gas, the fee is that of
/// `whole + 1` units.
pub proof fn lemma_tx_fee_rounds_up(
    usage: Map<Seq<char>, u64>,
    costs: Seq<(Seq<char>, u128)>,
    gas_price: u128,
    whole: nat,
)
    requires
        l1_gas_by_vm_usage(costs, usage.remove(constants::GAS_USAGE@)) is Ok,
        ({
            let by_vm_usage = l1_gas_by_vm_usage(costs, usage.remove(constants::GAS_USAGE@))->Ok_0;
            let total = usage[constants::GAS_USAGE@] as nat * unit() + by_vm_usage.inner as nat;
            total <= u128::MAX && whole * unit() < total < (whole + 1) * unit()
        }),
    ensures
        tx_fee(usage, costs, gas_price) == Ok::<Fee, TransactionExecutionError>(
            fee_for(whole + 1, gas_price),
        ),
{
    let by_vm_usage = l1_gas_by_vm_usage(costs, usage.remove(constants::GAS_USAGE@))->Ok_0;
    let total = usage[constants::GAS_USAGE@] as nat * unit() + by_vm_usage.inner as nat;
    lemma_fee_rounds_up(total, whole, gas_price);
}

/// Rounding to whole units of gas gives the smallest whole number that is
/// not below the total: it is less than one unit above it.
pub proof fn lemma_ceil_not_below(total: nat)
    ensures
        total <= whole_units_up(total) * unit() < total + unit(),
{
    let d = DIV as int;
    let t = total as int;
    assert(t == (t / d) * d + t % d && 0 <= t % d < d) by (nonlinear_arith)
        requires
            d > 0,
            t >= 0,
    ;
    assert((t / d + 1) * d == (t / d) * d + d) by (nonlinear_arith);
}

} // verus!
