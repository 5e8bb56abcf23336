//! Asset allocations: revealed amounts assigned to transaction outputs by
//! contract nodes.

use vstd::prelude::*;

use crate::ids::{NodeId, OutPoint};
use crate::seal::RevealedValue;

verus! {

/// Information about an allocation, represented by the contract node output
/// that assigns it, the seal's outpoint and the assigned value.
#[derive(Clone, Copy, PartialEq, Eq, Structural, Debug)]
pub struct Allocation {
    /// Node assigning the value; `node_id` and `index` together identify the
    /// assignment.
    pub node_id: NodeId,
    /// Index of the assignment within the node's asset assignments.
    pub index: u16,
    /// Outpoint controlling the allocated value.
    pub outpoint: OutPoint,
    /// Revealed amount: atomic value and blinding factor.
    pub revealed_amount: RevealedValue,
}

impl Allocation {
    /// Constructs allocation information from its parts.
    pub fn with(node_id: NodeId, index: u16, outpoint: OutPoint, value: RevealedValue) -> (a:
        Allocation)
        ensures
            a == (Allocation { node_id, index, outpoint, revealed_amount: value }),
    {
        Allocation { node_id, index, outpoint, revealed_amount: value }
    }

    /// Atomic value of the allocated amount.
    pub fn value(&self) -> (v: u64)
        ensures
            v == self.revealed_amount.value,
    {
        self.revealed_amount.value
    }

    /// Node assigning the value.
    pub fn node_id(&self) -> (r: NodeId)
        ensures
            r == self.node_id,
    {
        self.node_id
    }

    /// Index of the assignment within its node.
    pub fn index(&self) -> (r: u16)
        ensures
            r == self.index,
    {
        self.index
    }

    /// Outpoint controlling the allocated value.
    pub fn outpoint(&self) -> (r: OutPoint)
        ensures
            r == self.outpoint,
    {
        self.outpoint
    }

    /// Revealed amount of the allocation.
    pub fn revealed_amount(&self) -> (r: RevealedValue)
        ensures
            r == self.revealed_amount,
    {
        self.revealed_amount
    }
}

} // verus!
