//! Asset nominations (ticker, name, Ricardian contract, decimal precision)
//! and supply figures.

use vstd::prelude::*;

use crate::ids::{AttachmentId, NodeId, Txid};

verus! {

/// Asset metadata assigned by the issuer: ticker, name, contract text and
/// decimal precision.
#[derive(Clone, PartialEq, Eq, Debug)]
pub struct Nomination {
    pub ticker: String,
    pub name: String,
    pub ricardian_contract: Option<AttachmentId>,
    pub decimal_precision: u8,
}

impl Nomination {
    /// Asset ticker.
    pub fn ticker(&self) -> (r: &str)
        ensures
            r@ == self.ticker@,
    {
        self.ticker.as_str()
    }

    /// Asset name.
    pub fn name(&self) -> (r: &str)
        ensures
            r@ == self.name@,
    {
        self.name.as_str()
    }

    /// Attachment holding the Ricardian contract, if any.
    pub fn ricardian_contract(&self) -> (r: Option<AttachmentId>)
        ensures
            r == self.ricardian_contract,
    {
        self.ricardian_contract
    }

    /// Number of decimal digits of the asset's atomic unit.
    pub fn decimal_precision(&self) -> (r: u8)
        ensures
            r == self.decimal_precision,
    {
        self.decimal_precision
    }
}

/// A renomination operation, replacing the asset nomination.
#[derive(Clone, PartialEq, Eq, Debug)]
pub struct Renomination {
    /// Node performing the renomination.
    pub id: NodeId,
    /// Witness transaction of the renomination.
    pub witness: Txid,
    /// The nomination established by the renomination.
    pub nomination: Nomination,
}

impl Renomination {
    /// The nomination this operation establishes.
    pub fn nomination(&self) -> (r: &Nomination)
        ensures
            *r == self.nomination,
    {
        &self.nomination
    }
}

/// Measure of the asset supply.
#[derive(Clone, Copy, PartialEq, Eq, Structural, Debug)]
pub enum SupplyMeasure {
    /// Supply known from the issues seen so far.
    KnownCirculating,
    /// Total supply in circulation; known only when all issues are known.
    TotalCirculating,
    /// Maximum supply that can ever be issued.
    IssueLimit,
}

/// Detailed information about the asset supply, in atomic value units.
#[derive(Clone, Copy, PartialEq, Eq, Structural, Debug)]
pub struct Supply {
    pub known_circulating: u64,
    pub total_circulating: Option<u64>,
    pub issue_limit: u64,
}

impl Supply {
    /// Constructs supply information from its three measures.
    pub fn with(known_circulating: u64, total_circulating: Option<u64>, issue_limit: u64) -> (s:
        Supply)
        ensures
            s == (Supply { known_circulating, total_circulating, issue_limit }),
    {
        Supply { known_circulating, total_circulating, issue_limit }
    }

    /// Supply known from the issues seen so far.
    pub fn known_circulating(&self) -> (r: u64)
        ensures
            r == self.known_circulating,
    {
        self.known_circulating
    }

    /// Total circulating supply, when known.
    pub fn total_circulating(&self) -> (r: Option<u64>)
        ensures
            r == self.total_circulating,
    {
        self.total_circulating
    }

    /// Maximum supply that can be issued.
    pub fn issue_limit(&self) -> (r: u64)
        ensures
            r == self.issue_limit,
    {
        self.issue_limit
    }
}

} // verus!
