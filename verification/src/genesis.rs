//! How the asset information is read from a contract genesis: issue limit,
//! epoch-opening seal, primary issue, initial allocations and nomination.

use chrono::{DateTime, Utc};
use vstd::prelude::*;

use crate::allocation::Allocation;
use crate::error::Error;
use crate::ids::{NodeId, OutPoint, SchemaId};
use crate::nomination::Nomination;
use crate::seal::SealDefinition;
use crate::source::{GenesisData, InflationState, ValueAssignment};

verus! {

/// Earliest UNIX timestamp (in seconds) that a calendar date can be made
/// of: the first second of year -262143.
pub const MIN_TIMESTAMP: i64 = -8334601228800i64;

/// Latest UNIX timestamp (in seconds) that a calendar date can be made of:
/// the last second of year 262142.
pub const MAX_TIMESTAMP: i64 = 8210266876799i64;

/// Calls `chrono::DateTime::<Utc>::from_timestamp(secs, 0)`, which makes the
/// UTC date and time `secs` seconds after the UNIX epoch when one exists,
/// and tells whether it made one. The contract claims what chrono's source
/// shows: a date exists exactly for the seconds from the first second of
/// year -262143 to the last second of year 262142.
#[verifier::external_body]
fn calendar_date_exists(secs: i64) -> (r: bool)
    ensures
        r <==> MIN_TIMESTAMP <= secs <= MAX_TIMESTAMP,
{
    DateTime::<Utc>::from_timestamp(secs, 0).is_some()
}

/// Issue limit accumulated over the inflation right assignments, or `None`
/// when a revealed assignment does not hold a 64-bit amount before the
/// limit is saturated. A confidential assignment makes the limit unbounded
/// (`u64::MAX`); once the limit reaches `u64::MAX` it stays there.
pub open spec fn issue_limit_after(states: Seq<InflationState>) -> Option<int>
    decreases states.len(),
{
    if states.len() == 0 {
        Some(0)
    } else {
        match issue_limit_after(states.drop_last()) {
            None => None,
            Some(acc) => match states.last() {
                InflationState::Concealed => Some(u64::MAX as int),
                InflationState::Revealed(v) => if acc < u64::MAX {
                    match v {
                        Some(x) => Some(acc + x),
                        None => None,
                    }
                } else {
                    Some(acc)
                },
            },
        }
    }
}

/// Adding the amount at position `i` to the limit accumulated before it
/// exceeds the 64-bit range.
pub open spec fn issue_limit_overflows_at(states: Seq<InflationState>, i: int) -> bool {
    &&& 0 <= i < states.len()
    &&& issue_limit_after(states.take(i)) matches Some(acc)
    &&& acc < u64::MAX
    &&& states[i] matches InflationState::Revealed(Some(x))
    &&& acc + x > u64::MAX
}

/// Accumulating the issue limit exceeds the 64-bit range at some position.
pub open spec fn issue_limit_overflows(states: Seq<InflationState>) -> bool {
    exists|i: int| #[trigger] issue_limit_overflows_at(states, i)
}

/// Once the accumulation fails it stays failed.
pub proof fn lemma_issue_limit_failure_persists(states: Seq<InflationState>, i: int)
    requires
        0 <= i <= states.len(),
        issue_limit_after(states.take(i)) is None,
    ensures
        issue_limit_after(states) is None,
    decreases states.len() - i,
{
    if i < states.len() {
        assert(states.take(i + 1).drop_last() =~= states.take(i));
        lemma_issue_limit_failure_persists(states, i + 1);
    } else {
        assert(states.take(i) =~= states);
    }
}

/// Computes the issue limit from the inflation right assignments.
pub fn compute_issue_limit(states: &Vec<InflationState>) -> (r: Result<u64, Error>)
    requires
        !issue_limit_overflows(states@),
    ensures
        match issue_limit_after(states@) {
            Some(limit) => r == Ok::<u64, Error>(limit as u64) && 0 <= limit <= u64::MAX,
            None => r == Err::<u64, Error>(Error::UnsatisfiedSchemaRequirement),
        },
{
    let ghost s = states@;
    let mut issue_limit: u64 = 0;
    let mut i: usize = 0;
    assert(s.take(0) =~= Seq::<InflationState>::empty());
    while i < states.len()
        invariant
            s == states@,
            i <= s.len(),
            !issue_limit_overflows(s),
            issue_limit_after(s.take(i as int)) == Some(issue_limit as int),
        decreases s.len() - i,
    {
        proof {
            assert(s.take(i + 1).drop_last() =~= s.take(i as int));
            assert(!issue_limit_overflows_at(s, i as int));
        }
        match states[i] {
            InflationState::Revealed(v) => {
                if issue_limit < u64::MAX {
                    match v {
                        Some(x) => {
                            issue_limit = issue_limit + x;
                        },
                        None => {
                            proof {
                                lemma_issue_limit_failure_persists(s, i + 1);
                            }
                            return Err(Error::UnsatisfiedSchemaRequirement);
                        },
                    }
                }
            },
            InflationState::Concealed => {
                issue_limit = u64::MAX;
            },
        }
        i = i + 1;
    }
    assert(s.take(s.len() as int) =~= s);
    Ok(issue_limit)
}

/// Epoch-opening seal defined by the seals of the epoch-opening right of
/// the genesis `node`: the outpoint of the first seal, if any.
pub open spec fn epoch_seal_of(seals: Option<Vec<SealDefinition>>, node: NodeId) -> Result<Option<OutPoint>, Error> {
    match seals {
        None => Err(Error::EpochSealConfidential(node)),
        Some(v) => if v@.len() == 0 {
            Ok(None)
        } else {
            match v@[0].spec_outpoint() {
                Some(op) => Ok(Some(op)),
                None => Err(Error::GenesisSeal),
            }
        },
    }
}

/// Reads the epoch-opening seal from the seals of the epoch-opening right.
pub fn epoch_opening_seal(
    seals: &Option<Vec<SealDefinition>>,
    node: NodeId,
) -> (r: Result<Option<OutPoint>, Error>)
    ensures
        r == epoch_seal_of(*seals, node),
{
    match seals {
        None => Err(Error::EpochSealConfidential(node)),
        Some(v) => {
            if v.len() == 0 {
                Ok(None)
            } else {
                match v[0].outpoint() {
                    Some(op) => Ok(Some(op)),
                    None => Err(Error::GenesisSeal),
                }
            }
        },
    }
}

/// Allocations made by a genesis: one for each revealed asset assignment,
/// numbered by the assignment's position; fails when a revealed
/// assignment's seal points to a witness transaction.
pub open spec fn genesis_allocations(node: NodeId, s: Seq<ValueAssignment>) -> Result<Seq<Allocation>, Error>
    decreases s.len(),
{
    if s.len() == 0 {
        Ok(Seq::empty())
    } else {
        match genesis_allocations(node, s.drop_last()) {
            Err(e) => Err(e),
            Ok(prev) => match s.last() {
                ValueAssignment::Revealed { seal, state } => match seal.spec_outpoint() {
                    Some(op) => Ok(
                        prev.push(
                            Allocation {
                                node_id: node,
                                index: ((s.len() - 1) as usize) as u16,
                                outpoint: op,
                                revealed_amount: state,
                            },
                        ),
                    ),
                    None => Err(Error::GenesisSeal),
                },
                ValueAssignment::Concealed => Ok(prev),
            },
        }
    }
}

/// Once reading the allocations fails it stays failed with the same error.
pub proof fn lemma_genesis_allocations_failure_persists(
    node: NodeId,
    s: Seq<ValueAssignment>,
    i: int,
    e: Error,
)
    requires
        0 <= i <= s.len(),
        genesis_allocations(node, s.take(i)) == Err::<Seq<Allocation>, Error>(e),
    ensures
        genesis_allocations(node, s) == Err::<Seq<Allocation>, Error>(e),
    decreases s.len() - i,
{
    if i < s.len() {
        assert(s.take(i + 1).drop_last() =~= s.take(i));
        lemma_genesis_allocations_failure_persists(node, s, i + 1, e);
    } else {
        assert(s.take(i) =~= s);
    }
}

/// Reads the allocations made by a genesis from its asset assignments.
pub fn read_genesis_allocations(node: NodeId, assignments: &Vec<ValueAssignment>) -> (r: Result<
    Vec<Allocation>,
    Error,
>)
    ensures
        match genesis_allocations(node, assignments@) {
            Ok(s) => r matches Ok(v) && v@ == s,
            Err(e) => r == Err::<Vec<Allocation>, Error>(e),
        },
{
    let ghost s = assignments@;
    let mut known: Vec<Allocation> = Vec::new();
    let mut index: usize = 0;
    assert(s.take(0) =~= Seq::<ValueAssignment>::empty());
    while index < assignments.len()
        invariant
            s == assignments@,
            index <= s.len(),
            genesis_allocations(node, s.take(index as int)) == Ok::<Seq<Allocation>, Error>(
                known@,
            ),
        decreases s.len() - index,
    {
        proof {
            assert(s.take(index + 1).drop_last() =~= s.take(index as int));
            assert(s.take(index + 1).len() - 1 == index);
        }
        match assignments[index] {
            ValueAssignment::Revealed { seal, state } => {
                match seal.outpoint() {
                    Some(outpoint) => {
                        known.push(Allocation::with(node, index as u16, outpoint, state));
                    },
                    None => {
                        proof {
                            lemma_genesis_allocations_failure_persists(
                                node,
                                s,
                                index + 1,
                                Error::GenesisSeal,
                            );
                        }
                        return Err(Error::GenesisSeal);
                    },
                }
            },
            ValueAssignment::Concealed => {},
        }
        index = index + 1;
    }
    assert(s.take(s.len() as int) =~= s);
    Ok(known)
}

/// Nomination defined by a genesis: the first ticker, name and precision
/// values, and its Ricardian contract attachment.
pub open spec fn genesis_nomination(g: GenesisData) -> Result<Nomination, Error> {
    if g.tickers@.len() == 0 || g.names@.len() == 0 || g.precisions@.len() == 0 {
        Err(Error::UnsatisfiedSchemaRequirement)
    } else {
        Ok(
            Nomination {
                ticker: g.tickers@[0],
                name: g.names@[0],
                ricardian_contract: g.ricardian_contract,
                decimal_precision: g.precisions@[0],
            },
        )
    }
}

impl Nomination {
    /// Reads the nomination defined by a genesis.
    pub fn from_genesis(g: &GenesisData) -> (r: Result<Nomination, Error>)
        ensures
            r == genesis_nomination(*g),
            r is Ok <==> g.tickers@.len() > 0 && g.names@.len() > 0 && g.precisions@.len() > 0,
            r matches Ok(n) ==> n.ticker == g.tickers@[0] && n.name == g.names@[0]
                && n.ricardian_contract == g.ricardian_contract && n.decimal_precision
                == g.precisions@[0],
    {
        if g.tickers.len() == 0 || g.names.len() == 0 || g.precisions.len() == 0 {
            Err(Error::UnsatisfiedSchemaRequirement)
        } else {
            Ok(
                Nomination {
                    ticker: g.tickers[0].clone(),
                    name: g.names[0].clone(),
                    ricardian_contract: g.ricardian_contract,
                    decimal_precision: g.precisions[0],
                },
            )
        }
    }
}

/// The first error met reading asset information from genesis `g`
/// against the RGB20 schema `schema`, or `None` when there is none.
pub open spec fn genesis_error(g: GenesisData, schema: SchemaId) -> Option<Error> {
    let node = NodeId(g.contract_id.0);
    if g.schema_id != schema {
        Some(Error::WrongSchemaId)
    } else if g.issued_supply@.len() == 0 {
        Some(Error::UnsatisfiedSchemaRequirement)
    } else if issue_limit_after(g.inflation_states@) is None {
        Some(Error::UnsatisfiedSchemaRequirement)
    } else if epoch_seal_of(g.epoch_seals, node) is Err {
        Some(epoch_seal_of(g.epoch_seals, node)->Err_0)
    } else if g.inflation_assignments is None {
        Some(Error::InflationAssignmentConfidential(node))
    } else if genesis_allocations(node, g.asset_assignments@) is Err {
        Some(genesis_allocations(node, g.asset_assignments@)->Err_0)
    } else if genesis_nomination(g) is Err {
        Some(genesis_nomination(g)->Err_0)
    } else if g.timestamps@.len() == 0 {
        Some(Error::UnsatisfiedSchemaRequirement)
    } else {
        None
    }
}

/// Reading genesis `g` would exceed the 64-bit range accumulating the issue
/// limit, or would succeed with a creation timestamp no calendar date can be
/// made of.
pub open spec fn genesis_unreadable(g: GenesisData, schema: SchemaId) -> bool {
    ||| (g.schema_id == schema && g.issued_supply@.len() > 0 && issue_limit_overflows(
        g.inflation_states@,
    ))
    ||| (genesis_error(g, schema) is None && !(MIN_TIMESTAMP <= g.timestamps@[0]
        <= MAX_TIMESTAMP))
}

/// Tells whether accumulating the issue limit over the given inflation
/// right assignments exceeds the 64-bit range.
pub fn issue_limit_overflow(states: &Vec<InflationState>) -> (r: bool)
    ensures
        r == issue_limit_overflows(states@),
{
    let ghost s = states@;
    let mut acc: u64 = 0;
    let mut i: usize = 0;
    assert(s.take(0) =~= Seq::<InflationState>::empty());
    while i < states.len()
        invariant
            s == states@,
            i <= s.len(),
            issue_limit_after(s.take(i as int)) == Some(acc as int),
            forall|j: int| 0 <= j < i ==> !#[trigger] issue_limit_overflows_at(s, j),
        decreases s.len() - i,
    {
        proof {
            assert(s.take(i + 1).drop_last() =~= s.take(i as int));
        }
        match states[i] {
            InflationState::Revealed(v) => {
                if acc < u64::MAX {
                    match v {
                        Some(x) => {
                            if x > u64::MAX - acc {
                                assert(issue_limit_overflows_at(s, i as int));
                                return true;
                            }
                            acc = acc + x;
                        },
                        None => {
                            proof {
                                assert(s.take(i + 1).last() == s[i as int]);
                                assert(issue_limit_after(s.take(i + 1)) is None);
                                assert forall|j: int| !#[trigger] issue_limit_overflows_at(s, j) by {
                                    if i < j < s.len() {
                                        assert(s.take(j).take(i + 1) =~= s.take(i + 1));
                                        lemma_issue_limit_failure_persists(s.take(j), i + 1);
                                    }
                                }
                            }
                            return false;
                        },
                    }
                }
            },
            InflationState::Concealed => {
                acc = u64::MAX;
            },
        }
        i = i + 1;
    }
    false
}

/// Tells whether reading genesis `g` against schema `schema` would exceed
/// the 64-bit range accumulating the issue limit, or would succeed with a
/// creation timestamp no calendar date can be made of.
pub fn genesis_is_unreadable(g: &GenesisData, schema: SchemaId) -> (r: bool)
    ensures
        r == genesis_unreadable(*g, schema),
{
    if g.schema_id != schema || g.issued_supply.len() == 0 {
        return false;
    }
    if issue_limit_overflow(&g.inflation_states) {
        return true;
    }
    let node = g.contract_id.genesis_node_id();
    if compute_issue_limit(&g.inflation_states).is_err() {
        return false;
    }
    if epoch_opening_seal(&g.epoch_seals, node).is_err() {
        return false;
    }
    if g.inflation_assignments.is_none() {
        return false;
    }
    if read_genesis_allocations(node, &g.asset_assignments).is_err() {
        return false;
    }
    if Nomination::from_genesis(g).is_err() {
        return false;
    }
    if g.timestamps.len() == 0 {
        return false;
    }
    !calendar_date_exists(g.timestamps[0])
}

} // verus!
