//! Errors raised while assembling asset information from contract data.

use vstd::prelude::*;

use crate::ids::{Bytes32, NodeId};

verus! {

/// Owned right types of the RGB20 schema.
#[derive(Clone, Copy, PartialEq, Eq, Structural, Debug)]
pub enum OwnedRightType {
    /// Inflation (secondary issue) control right.
    Inflation,
    /// Asset ownership right.
    Assets,
    /// Right to open the next burn & replace epoch.
    OpenEpoch,
    /// Right to perform burn & replace operations within an epoch.
    BurnReplace,
    /// Right to renominate the asset.
    Renomination,
}

impl OwnedRightType {
    /// Numeric type code of the right, as stored in contract data.
    pub open spec fn spec_code(self) -> u16 {
        match self {
            OwnedRightType::Inflation => 0xA0,
            OwnedRightType::Assets => 0xA1,
            OwnedRightType::OpenEpoch => 0xAA,
            OwnedRightType::BurnReplace => 0xAB,
            OwnedRightType::Renomination => 0x01,
        }
    }

    /// Numeric type code of the right, as stored in contract data.
    pub fn code(&self) -> (c: u16)
        ensures
            c == self.spec_code(),
    {
        match self {
            OwnedRightType::Inflation => 0xA0,
            OwnedRightType::Assets => 0xA1,
            OwnedRightType::OpenEpoch => 0xAA,
            OwnedRightType::BurnReplace => 0xAB,
            OwnedRightType::Renomination => 0x01,
        }
    }
}

/// Pointer to an output of a contract node: node id, owned right type code
/// and output number.
#[derive(Clone, Copy, PartialEq, Eq, Structural, Debug)]
pub struct NodeOutpoint {
    pub node_id: NodeId,
    pub ty: u16,
    pub no: u16,
}

/// Inconsistency found in stored or consigned contract data.
#[derive(Clone, Copy, PartialEq, Eq, Structural, Debug)]
pub enum ConsistencyError {
    /// Bundle with the given id is absent.
    BundleIdAbsent(Bytes32),
    /// Transition with the given id is absent.
    TransitionAbsent(NodeId),
    /// Extension with the given id is absent.
    ExtensionAbsent(NodeId),
    /// Anchor with the given id is absent.
    AnchorAbsent(Bytes32),
    /// No seals of the given owned right type code are closed by the node.
    NoSealsClosed(u16, NodeId),
    /// The given output is absent.
    OutputNotPresent(NodeOutpoint),
    /// The seal of the given output is confidential while it must be
    /// revealed.
    ConfidentialSeal(NodeOutpoint),
    /// The node is not an endpoint of the consignment.
    NotEndpoint(NodeId),
}

/// Errors generated while reading RGB20 asset information from genesis or
/// consignment data.
#[derive(Clone, Copy, PartialEq, Eq, Structural, Debug)]
pub enum Error {
    /// The provided information does not satisfy schema requirements.
    UnsatisfiedSchemaRequirement,
    /// The genesis schema id does not match the RGB20 schema.
    WrongSchemaId,
    /// The genesis defines a seal referencing a witness transaction, while
    /// a genesis has no witness transaction.
    GenesisSeal,
    /// The epoch seal definition of the given node holds confidential data.
    EpochSealConfidential(NodeId),
    /// The burn & replace seal definition of the given node holds
    /// confidential data.
    BurnSealConfidential(NodeId),
    /// An inflation assignment (seal or state) of the given node holds
    /// confidential data.
    InflationAssignmentConfidential(NodeId),
    /// Internal data inconsistency.
    Inconsistency(ConsistencyError),
    /// Not all epochs referenced by burn or burn & replace operations are
    /// known from the consignment.
    NotAllEpochsExposed,
    /// A renomination misses its Ricardian contract.
    RicardianContractMissed,
}

} // verus!
