//! Revealed single-use-seal definitions and revealed (non-confidential)
//! asset amounts.

use vstd::prelude::*;

use crate::ids::{Bytes32, OutPoint, Txid};

verus! {

/// A revealed seal definition pointing to a bitcoin transaction output.
///
/// When `txid` is absent the seal points to output `vout` of the witness
/// transaction of the node that defines it.
#[derive(Clone, Copy, PartialEq, Eq, Structural, Debug)]
pub struct SealDefinition {
    pub txid: Option<Txid>,
    pub vout: u32,
}

impl SealDefinition {
    /// The outpoint the seal refers to, when it names its transaction.
    pub open spec fn spec_outpoint(self) -> Option<OutPoint> {
        match self.txid {
            Some(txid) => Some(OutPoint { txid, vout: self.vout }),
            None => None,
        }
    }

    /// The outpoint the seal refers to, using `witness` as the transaction
    /// when the seal does not name one.
    pub open spec fn spec_outpoint_or(self, witness: Txid) -> OutPoint {
        match self.txid {
            Some(txid) => OutPoint { txid, vout: self.vout },
            None => OutPoint { txid: witness, vout: self.vout },
        }
    }

    /// Returns the outpoint of the seal, or `None` for a seal pointing to a
    /// witness transaction output.
    pub fn outpoint(&self) -> (r: Option<OutPoint>)
        ensures
            r == self.spec_outpoint(),
    {
        match self.txid {
            Some(txid) => Some(OutPoint { txid, vout: self.vout }),
            None => None,
        }
    }

    /// Returns the outpoint of the seal, taking `witness` as its transaction
    /// when the seal points to a witness transaction output.
    pub fn outpoint_or(&self, witness: Txid) -> (r: OutPoint)
        ensures
            r == self.spec_outpoint_or(witness),
    {
        match self.txid {
            Some(txid) => OutPoint { txid, vout: self.vout },
            None => OutPoint { txid: witness, vout: self.vout },
        }
    }
}

/// A revealed asset amount: the atomic value and the blinding factor of its
/// Pedersen commitment.
#[derive(Clone, Copy, PartialEq, Eq, Structural, Debug)]
pub struct RevealedValue {
    /// Amount in the smallest indivisible units.
    pub value: u64,
    /// Blinding factor used in the Pedersen commitment.
    pub blinding: Bytes32,
}

} // verus!
