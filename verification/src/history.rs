//! Records of the asset history: issues, burn & replace epochs and the
//! operations within them.

use vstd::prelude::*;

use crate::error::Error;
use crate::ids::{ContractId, NodeId, OutPoint, Txid};
use crate::inflation::InflationMap;

verus! {

/// An asset issue: the primary issue made by the genesis or a secondary
/// issue made by a state transition.
#[derive(Clone, PartialEq, Eq, Debug)]
pub struct Issue {
    /// Node making the issue.
    pub id: NodeId,
    /// Asset being issued.
    pub asset_id: ContractId,
    /// Inflation seals closed by the issue (none for the primary issue).
    pub closed_seals: Vec<OutPoint>,
    /// Witness transaction (none for the primary issue).
    pub witness: Option<Txid>,
    /// Outpoints that, when spent, may issue more of the asset.
    pub inflation_assignments: InflationMap,
}

impl Issue {
    /// Constructs the record of an issue made by node `id`, closing
    /// `closed_seals` in the `witness` transaction and defining the given
    /// inflation assignments; `None` assignments mean that one of them is
    /// confidential, which is refused.
    pub fn with(
        asset_id: ContractId,
        closed_seals: Vec<OutPoint>,
        id: NodeId,
        inflation_assignments: Option<InflationMap>,
        witness: Option<Txid>,
    ) -> (r: Result<Issue, Error>)
        ensures
            match inflation_assignments {
                None => r == Err::<Issue, Error>(Error::InflationAssignmentConfidential(id)),
                Some(m) => r matches Ok(issue) && issue.id == id && issue.asset_id == asset_id
                    && issue.closed_seals@ == closed_seals@ && issue.witness == witness
                    && issue.inflation_assignments == m,
            },
    {
        match inflation_assignments {
            None => Err(Error::InflationAssignmentConfidential(id)),
            Some(m) => Ok(Issue { id, asset_id, closed_seals, witness, inflation_assignments: m }),
        }
    }

    /// Inflation assignments defined by the issue.
    pub fn inflation_assignments(&self) -> (r: &InflationMap)
        ensures
            r == &self.inflation_assignments,
    {
        &self.inflation_assignments
    }
}

/// A burn or burn & replace operation inside an epoch.
#[derive(Clone, Copy, PartialEq, Eq, Structural, Debug)]
pub struct BurnReplace {
    /// Node performing the operation.
    pub id: NodeId,
    /// Asset concerned.
    pub asset_id: ContractId,
    /// Epoch the operation belongs to.
    pub epoch_id: NodeId,
    /// Number of the operation within its epoch, from zero.
    pub no: usize,
    /// Seal closed by the operation.
    pub closes: OutPoint,
    /// Witness transaction of the operation.
    pub witness: Txid,
}

impl BurnReplace {
    /// Constructs an operation record from its parts.
    pub fn with(
        asset_id: ContractId,
        epoch_id: NodeId,
        no: usize,
        closes: OutPoint,
        id: NodeId,
        witness: Txid,
    ) -> (op: BurnReplace)
        ensures
            op == (BurnReplace { id, asset_id, epoch_id, no, closes, witness }),
    {
        BurnReplace { id, asset_id, epoch_id, no, closes, witness }
    }
}

/// A burn & replace epoch: the node opening it, the seal it closes and the
/// operations performed within it.
#[derive(Clone, PartialEq, Eq, Debug)]
pub struct Epoch {
    /// Node opening the epoch.
    pub id: NodeId,
    /// Asset concerned.
    pub asset_id: ContractId,
    /// Number of the epoch, from zero.
    pub no: usize,
    /// Seal closed by the epoch.
    pub closes: OutPoint,
    /// Burn and burn & replace operations of the epoch, in order.
    pub operations: Vec<BurnReplace>,
    /// Witness transaction of the epoch.
    pub witness: Txid,
}

impl Epoch {
    /// Constructs an epoch record from its parts.
    pub fn with(
        asset_id: ContractId,
        no: usize,
        closes: OutPoint,
        id: NodeId,
        operations: Vec<BurnReplace>,
        witness: Txid,
    ) -> (e: Epoch)
        ensures
            e.id == id,
            e.asset_id == asset_id,
            e.no == no,
            e.closes == closes,
            e.operations@ == operations@,
            e.witness == witness,
    {
        Epoch { id, asset_id, no, closes, operations, witness }
    }
}

} // verus!
