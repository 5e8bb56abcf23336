//! Identifiers used throughout the library: 32-byte hashes, transaction
//! outpoints and contract node identifiers.

use vstd::prelude::*;

verus! {

/// A 32-byte hash value (transaction id, node id, contract id, attachment id,
/// blinding factor).
///
/// The bytes are kept as two big-endian 128-bit words: `hi` holds bytes
/// `0..16` and `lo` holds bytes `16..32`, each with the first byte as the most
/// significant one. Comparing `(hi, lo)` lexicographically therefore orders
/// hashes exactly as comparing their byte arrays lexicographically does.
#[derive(Clone, Copy, PartialEq, Eq, Structural, Debug, Hash)]
pub struct Bytes32 {
    pub hi: u128,
    pub lo: u128,
}

/// Strict order of 32-byte hashes: lexicographic on the bytes.
pub open spec fn bytes32_lt(a: Bytes32, b: Bytes32) -> bool {
    a.hi < b.hi || (a.hi == b.hi && a.lo < b.lo)
}

/// Bitcoin transaction id.
#[derive(Clone, Copy, PartialEq, Eq, Structural, Debug, Hash)]
pub struct Txid(pub Bytes32);

/// Identifier of an RGB contract node (genesis, state transition or
/// extension).
#[derive(Clone, Copy, PartialEq, Eq, Structural, Debug, Hash)]
pub struct NodeId(pub Bytes32);

/// Identifier of an RGB contract; equal to the node id of its genesis.
#[derive(Clone, Copy, PartialEq, Eq, Structural, Debug, Hash)]
pub struct ContractId(pub Bytes32);

/// Identifier of an RGB schema.
#[derive(Clone, Copy, PartialEq, Eq, Structural, Debug, Hash)]
pub struct SchemaId(pub Bytes32);

/// Identifier of a contract attachment (such as a Ricardian contract text).
#[derive(Clone, Copy, PartialEq, Eq, Structural, Debug, Hash)]
pub struct AttachmentId(pub Bytes32);

/// Reference to a bitcoin transaction output.
#[derive(Clone, Copy, PartialEq, Eq, Structural, Debug, Hash)]
pub struct OutPoint {
    /// The referenced transaction's txid.
    pub txid: Txid,
    /// The index of the referenced output in its transaction's vout.
    pub vout: u32,
}

/// Strict order of outpoints: by transaction id, then by output number.
pub open spec fn outpoint_lt(a: OutPoint, b: OutPoint) -> bool {
    bytes32_lt(a.txid.0, b.txid.0) || (a.txid == b.txid && a.vout < b.vout)
}

impl ContractId {
    /// The node id of the contract genesis, which carries the same hash.
    pub fn genesis_node_id(&self) -> (id: NodeId)
        ensures
            id.0 == self.0,
    {
        NodeId(self.0)
    }
}

/// Tells whether `a` orders strictly before `b`.
pub fn outpoint_precedes(a: &OutPoint, b: &OutPoint) -> (r: bool)
    ensures
        r == outpoint_lt(*a, *b),
{
    if a.txid.0.hi != b.txid.0.hi {
        a.txid.0.hi < b.txid.0.hi
    } else if a.txid.0.lo != b.txid.0.lo {
        a.txid.0.lo < b.txid.0.lo
    } else {
        a.vout < b.vout
    }
}

/// `outpoint_lt` is a strict total order.
pub proof fn lemma_outpoint_order(a: OutPoint, b: OutPoint, c: OutPoint)
    ensures
        !outpoint_lt(a, a),
        outpoint_lt(a, b) ==> !outpoint_lt(b, a),
        outpoint_lt(a, b) && outpoint_lt(b, c) ==> outpoint_lt(a, c),
        a == b || outpoint_lt(a, b) || outpoint_lt(b, a),
{
}

} // verus!
