//! What a block fixes for the transactions in it.
use std::sync::Arc;
use vstd::prelude::*;
use crate::assoc::keys_unique;
use crate::fee::fixed_point::FixedU128;
use crate::primitives::ContractAddress;

verus! {

/// The name of a chain.
#[derive(Clone, Debug, PartialEq, Eq, Default)]
pub struct ChainId(pub String);

/// The number of a block.
#[derive(Clone, Copy, Debug, PartialEq, Eq, Structural, PartialOrd, Ord, Hash, Default)]
pub struct BlockNumber(pub u64);

/// The time of a block.
#[derive(Clone, Copy, Debug, PartialEq, Eq, Structural, PartialOrd, Ord, Hash, Default)]
pub struct BlockTimestamp(pub u64);

/// What a block fixes for the transactions in it.
#[derive(Clone, Debug)]
pub struct BlockContext {
    pub chain_id: ChainId,
    pub block_number: BlockNumber,
    pub block_timestamp: BlockTimestamp,
    /// The address of the sequencer, who receives the fees.
    pub sequencer_address: ContractAddress,
    /// The address of the token in which fees are paid.
    pub fee_token_address: ContractAddress,
    /// For each resource that has a price, its name and the L1 gas that one
    /// unit of it costs.
    pub vm_resource_fee_cost: Arc<Vec<(String, FixedU128)>>,
    /// The price of one unit of L1 gas, in wei.
    pub gas_price: u128,
    /// The most steps that an invoke transaction may take.
    pub invoke_tx_max_n_steps: u32,
    /// The most steps that a validation may take.
    pub validate_max_n_steps: u32,
    /// The deepest that calls may nest.
    pub max_recursion_depth: usize,
}

impl BlockContext {
    /// The priced resources, each name by its characters and each cost in
    /// units of the fixed point.
    pub open spec fn fee_costs(&self) -> Seq<(Seq<char>, u128)> {
        self.vm_resource_fee_cost@.map_values(|e: (String, FixedU128)| (e.0@, e.1.inner))
    }

    /// Whether the table of prices is a mapping: no resource is priced twice.
    pub open spec fn wf(&self) -> bool {
        keys_unique(self.fee_costs())
    }

    /// Whether no resource is priced twice.
    pub fn has_unique_fee_costs(&self) -> (r: bool)
        ensures
            r == self.wf(),
    {
        let costs = &self.vm_resource_fee_cost;
        let ghost view = self.fee_costs();
        let mut i: usize = 0;
        while i < costs.len()
            invariant
                i <= costs@.len(),
                costs == &self.vm_resource_fee_cost,
                view == self.fee_costs(),
                forall|a: int, b: int|
                    0 <= a < i && 0 <= b < a ==> (#[trigger] view[a]).0 != (#[trigger] view[b]).0,
            decreases costs@.len() - i,
        {
            let mut j: usize = 0;
            while j < i
                invariant
                    j <= i,
                    i < costs@.len(),
                    costs == &self.vm_resource_fee_cost,
                    view == self.fee_costs(),
                    forall|b: int| 0 <= b < j ==> view[i as int].0 != (#[trigger] view[b]).0,
                decreases i - j,
            {
                if costs[i].0 == costs[j].0 {
                    assert(view[i as int].0 == view[j as int].0);
                    return false;
                }
                j += 1;
            }
            i += 1;
        }
        assert forall|a: int, b: int|
            0 <= a < view.len() && 0 <= b < view.len() && a != b implies (#[trigger] view[a]).0
            != (#[trigger] view[b]).0 by {
            if b < a {
            } else {
                assert(view[b].0 != view[a].0);
            }
        }
        true
    }
}

} // verus!
