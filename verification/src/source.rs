//! Contract data the asset information is read from: what a genesis and a
//! consignment hold about an RGB20 asset, as plain values.

use vstd::prelude::*;

use crate::error::ConsistencyError;
use crate::ids::{AttachmentId, ContractId, NodeId, OutPoint, SchemaId, Txid};
use crate::inflation::InflationMap;
use crate::seal::{RevealedValue, SealDefinition};

verus! {

/// State of one assignment of the inflation right in a genesis.
#[derive(Clone, Copy, PartialEq, Eq, Structural, Debug)]
pub enum InflationState {
    /// The assigned state is revealed; it holds the 64-bit amount when the
    /// state is an unsigned 64-bit integer.
    Revealed(Option<u64>),
    /// The assigned state is confidential.
    Concealed,
}

/// One assignment of the asset ownership right.
#[derive(Clone, Copy, PartialEq, Eq, Structural, Debug)]
pub enum ValueAssignment {
    /// Both the seal and the amount are revealed.
    Revealed { seal: SealDefinition, state: RevealedValue },
    /// The seal, the amount or both are confidential.
    Concealed,
}

/// What a contract genesis holds about an RGB20 asset.
#[derive(Debug)]
pub struct GenesisData {
    /// Schema the genesis follows.
    pub schema_id: SchemaId,
    /// Contract id (equal to the genesis node id).
    pub contract_id: ContractId,
    /// Name of the chain the asset is issued on.
    pub chain: String,
    /// Values of the issued-supply metadata field.
    pub issued_supply: Vec<u64>,
    /// Values of the timestamp metadata field (UNIX seconds).
    pub timestamps: Vec<i64>,
    /// Values of the ticker metadata field.
    pub tickers: Vec<String>,
    /// Values of the name metadata field.
    pub names: Vec<String>,
    /// Values of the decimal precision metadata field.
    pub precisions: Vec<u8>,
    /// Attachment holding the Ricardian contract, if any.
    pub ricardian_contract: Option<AttachmentId>,
    /// States of the inflation right assignments, in order.
    pub inflation_states: Vec<InflationState>,
    /// Inflation assignments of the genesis, or `None` when one of them has
    /// a confidential seal or state.
    pub inflation_assignments: Option<InflationMap>,
    /// Seals of the epoch-opening right, or `None` when one of them is
    /// confidential.
    pub epoch_seals: Option<Vec<SealDefinition>>,
    /// Assignments of the asset ownership right, in order.
    pub asset_assignments: Vec<ValueAssignment>,
}

/// A state transition in a chain of transitions, with its witness
/// transaction and the seals it closes of the right type connecting the
/// chain.
#[derive(Debug)]
pub struct ChainLink {
    pub node_id: NodeId,
    pub witness: Txid,
    /// Seals of the connecting right type closed by the transition, in
    /// ascending order, or the inconsistency found looking them up.
    pub closed_seals: Result<Vec<OutPoint>, ConsistencyError>,
}

/// A secondary issue transition with its witness transaction.
#[derive(Debug)]
pub struct IssueTransition {
    pub node_id: NodeId,
    pub witness: Txid,
    /// Inflation seals closed by the transition, in ascending order, or the
    /// inconsistency found looking them up.
    pub closed_seals: Result<Vec<OutPoint>, ConsistencyError>,
    /// Inflation assignments made by the transition, or `None` when one of
    /// them has a confidential seal or state.
    pub inflation_assignments: Option<InflationMap>,
}

/// A transition assigning the asset, with its witness transaction.
#[derive(Clone, Debug)]
pub struct AssetTransition {
    pub node_id: NodeId,
    pub witness: Txid,
    /// Assignments of the asset ownership right, in order.
    pub assignments: Vec<ValueAssignment>,
}

/// A renomination transition with its witness transaction: the new
/// ticker, name and decimal precision, and the Ricardian contract
/// attachment if the transition reveals one.
#[derive(Debug)]
pub struct RenominationTransition {
    pub node_id: NodeId,
    pub witness: Txid,
    pub ticker: String,
    pub name: String,
    pub decimal_precision: u8,
    pub ricardian_contract: Option<AttachmentId>,
}

/// What a consignment holds about an RGB20 asset.
#[derive(Debug)]
pub struct ConsignmentData {
    /// The contract genesis.
    pub genesis: GenesisData,
    /// For each endpoint burn or burn & replace transition, the transitions
    /// met following the burn & replace right back in history from it,
    /// endpoint first.
    pub burn_chains: Vec<Vec<ChainLink>>,
    /// The transitions met following the epoch-opening right back in
    /// history from the first endpoint epoch transition, endpoint first, if
    /// the consignment has an endpoint epoch transition.
    pub epoch_chain: Option<Vec<ChainLink>>,
    /// Secondary issue transitions, in consignment order.
    pub issues: Vec<IssueTransition>,
    /// Renomination transitions, in consignment order.
    pub renominations: Vec<RenominationTransition>,
    /// Issue, burn & replace, transfer and rights split transitions, in
    /// consignment order.
    pub asset_transitions: Vec<AssetTransition>,
}

} // verus!
