//! How a consignment extends the asset read from its genesis: burn & replace
//! operations grouped by epoch, the epochs themselves, secondary issues and
//! the allocations made by state transitions.

use vstd::prelude::*;

use crate::allocation::Allocation;
use crate::error::{ConsistencyError, Error, OwnedRightType};
use crate::history::{BurnReplace, Epoch, Issue};
use crate::ids::{ContractId, NodeId, OutPoint, SchemaId, Txid};
use crate::seal::{RevealedValue, SealDefinition};
use crate::genesis::genesis_error;
use crate::nomination::{Nomination, Renomination};
use crate::source::{
    AssetTransition, ChainLink, ConsignmentData, IssueTransition, RenominationTransition,
    ValueAssignment,
};

verus! {

/// The seal of right type `ty` closed by `link`: the first of its closed
/// seals, failing when looking them up failed or when there are none.
pub open spec fn closed_seal_of(link: ChainLink, ty: OwnedRightType) -> Result<OutPoint, Error> {
    match link.closed_seals {
        Err(e) => Err(Error::Inconsistency(e)),
        Ok(v) => if v@.len() == 0 {
            Err(Error::Inconsistency(ConsistencyError::NoSealsClosed(ty.spec_code(), link.node_id)))
        } else {
            Ok(v@[0])
        },
    }
}

/// Reads the seal of right type `ty` closed by `link`.
pub fn closed_seal(link: &ChainLink, ty: OwnedRightType) -> (r: Result<OutPoint, Error>)
    ensures
        r == closed_seal_of(*link, ty),
{
    match &link.closed_seals {
        Err(e) => Err(Error::Inconsistency(*e)),
        Ok(v) => {
            if v.len() == 0 {
                Err(Error::Inconsistency(ConsistencyError::NoSealsClosed(ty.code(), link.node_id)))
            } else {
                Ok(v[0])
            }
        },
    }
}

/// The first `k` operations read from a burn chain (listed from its
/// endpoint back in history): operation `j` is made by link
/// `chain.len() - 1 - j` and belongs to the epoch named by the endpoint.
pub open spec fn burn_ops_upto(asset_id: ContractId, chain: Seq<ChainLink>, k: nat) -> Result<
    Seq<BurnReplace>,
    Error,
>
    decreases k,
{
    if k == 0 {
        Ok(Seq::empty())
    } else {
        match burn_ops_upto(asset_id, chain, (k - 1) as nat) {
            Err(e) => Err(e),
            Ok(prev) => {
                let link = chain[chain.len() - k];
                match closed_seal_of(link, OwnedRightType::BurnReplace) {
                    Err(e) => Err(e),
                    Ok(seal) => Ok(
                        prev.push(
                            BurnReplace {
                                id: link.node_id,
                                asset_id,
                                epoch_id: chain[0].node_id,
                                no: (k - 1) as usize,
                                closes: seal,
                                witness: link.witness,
                            },
                        ),
                    ),
                }
            },
        }
    }
}

/// Operations grouped by epoch after reading the given burn chains: each
/// non-empty chain records its operations under its endpoint's node id,
/// replacing an earlier record under the same id.
pub open spec fn epoch_operations_after(asset_id: ContractId, chains: Seq<Vec<ChainLink>>) -> Result<
    Map<NodeId, Seq<BurnReplace>>,
    Error,
>
    decreases chains.len(),
{
    if chains.len() == 0 {
        Ok(Map::empty())
    } else {
        match epoch_operations_after(asset_id, chains.drop_last()) {
            Err(e) => Err(e),
            Ok(m) => {
                let c = chains.last()@;
                if c.len() == 0 {
                    Ok(m)
                } else {
                    match burn_ops_upto(asset_id, c, (c.len() - 1) as nat) {
                        Err(e) => Err(e),
                        Ok(ops) => Ok(m.insert(c[0].node_id, ops)),
                    }
                }
            },
        }
    }
}

/// Map described by a list of records, later records replacing earlier
/// ones under the same key.
pub open spec fn records_map(s: Seq<(NodeId, Vec<BurnReplace>)>) -> Map<NodeId, Seq<BurnReplace>>
    decreases s.len(),
{
    if s.len() == 0 {
        Map::empty()
    } else {
        records_map(s.drop_last()).insert(s.last().0, s.last().1@)
    }
}

/// Burn & replace operations grouped by the epoch they belong to.
#[derive(Debug)]
pub struct EpochOperations {
    records: Vec<(NodeId, Vec<BurnReplace>)>,
}

impl EpochOperations {
    /// Operations of each epoch.
    pub closed spec fn spec_map(&self) -> Map<NodeId, Seq<BurnReplace>> {
        records_map(self.records@)
    }

    /// Creates an empty grouping.
    pub fn new() -> (r: EpochOperations)
        ensures
            r.spec_map() == Map::<NodeId, Seq<BurnReplace>>::empty(),
    {
        EpochOperations { records: Vec::new() }
    }

    /// Records `ops` as the operations of `epoch_id`, replacing earlier ones.
    pub fn insert(&mut self, epoch_id: NodeId, ops: Vec<BurnReplace>)
        ensures
            final(self).spec_map() == old(self).spec_map().insert(epoch_id, ops@),
    {
        let ghost s = self.records@;
        self.records.push((epoch_id, ops));
        assert(self.records@.drop_last() =~= s);
    }

    /// Whether no epoch has operations recorded.
    pub fn is_empty(&self) -> (r: bool)
        ensures
            r == (self.spec_map() == Map::<NodeId, Seq<BurnReplace>>::empty()),
    {
        if self.records.len() == 0 {
            true
        } else {
            assert(self.spec_map().contains_key(self.records@.last().0));
            false
        }
    }

    /// Takes out the operations recorded for `epoch_id`, or an empty list
    /// when there are none.
    pub fn remove(&mut self, epoch_id: NodeId) -> (ops: Vec<BurnReplace>)
        ensures
            ops@ == if old(self).spec_map().contains_key(epoch_id) {
                old(self).spec_map()[epoch_id]
            } else {
                Seq::<BurnReplace>::empty()
            },
            final(self).spec_map() == old(self).spec_map().remove(epoch_id),
    {
        let ghost s = self.records@;
        let mut kept: Vec<(NodeId, Vec<BurnReplace>)> = Vec::new();
        let mut found: Vec<BurnReplace> = Vec::new();
        let mut i: usize = 0;
        assert(s.take(0) =~= Seq::<(NodeId, Vec<BurnReplace>)>::empty());
        assert(records_map(kept@) =~= records_map(s.take(0)).remove(epoch_id));
        while i < self.records.len()
            invariant
                s == self.records@,
                i <= s.len(),
                records_map(kept@) == records_map(s.take(i as int)).remove(epoch_id),
                found@ == if records_map(s.take(i as int)).contains_key(epoch_id) {
                    records_map(s.take(i as int))[epoch_id]
                } else {
                    Seq::<BurnReplace>::empty()
                },
            decreases s.len() - i,
        {
            let ghost before = records_map(s.take(i as int));
            assert(s.take(i + 1).drop_last() =~= s.take(i as int));
            let key = self.records[i].0;
            let ops = copy_operations(&self.records[i].1);
            if key == epoch_id {
                found = ops;
                assert(records_map(s.take(i + 1)).remove(epoch_id) =~= before.remove(epoch_id));
            } else {
                let ghost kept_before = kept@;
                kept.push((key, ops));
                assert(kept@.drop_last() =~= kept_before);
                assert(records_map(kept@) =~= records_map(s.take(i + 1)).remove(epoch_id));
            }
            i = i + 1;
        }
        assert(s.take(s.len() as int) =~= s);
        self.records = kept;
        found
    }
}

/// Copies a list of operations.
fn copy_operations(v: &Vec<BurnReplace>) -> (r: Vec<BurnReplace>)
    ensures
        r@ == v@,
{
    let mut r: Vec<BurnReplace> = Vec::new();
    let mut i: usize = 0;
    while i < v.len()
        invariant
            i <= v.len(),
            r@ == v@.take(i as int),
        decreases v.len() - i,
    {
        r.push(v[i]);
        i = i + 1;
        assert(r@ =~= v@.take(i as int));
    }
    assert(v@.take(v.len() as int) =~= v@);
    r
}

/// Reads the operations of a burn chain, listed from its endpoint back in
/// history.
pub fn read_burn_operations(asset_id: ContractId, chain: &Vec<ChainLink>) -> (r: Result<
    Vec<BurnReplace>,
    Error,
>)
    requires
        chain@.len() > 0,
    ensures
        match burn_ops_upto(asset_id, chain@, (chain@.len() - 1) as nat) {
            Ok(ops) => r matches Ok(v) && v@ == ops,
            Err(e) => r == Err::<Vec<BurnReplace>, Error>(e),
        },
        r is Ok <==> forall|i: int|
            1 <= i < chain@.len() ==> (#[trigger] chain@[i]).closed_seals is Ok
                && chain@[i].closed_seals->Ok_0@.len() > 0,
        r matches Ok(v) ==> v@.len() == chain@.len() - 1 && forall|j: int|
            #![trigger v@[j]]
            0 <= j < v@.len() ==> {
                let link = chain@[chain@.len() - 1 - j];
                &&& v@[j].closes == link.closed_seals->Ok_0@[0]
                &&& v@[j].id == link.node_id
                &&& v@[j].witness == link.witness
                &&& v@[j].epoch_id == chain@[0].node_id
                &&& v@[j].asset_id == asset_id
                &&& v@[j].no == j
            },
{
    proof {
        crate::laws::law_burn_operations_from_links(asset_id, chain@, (chain@.len() - 1) as nat);
    }
    let ghost c = chain@;
    let n = chain.len();
    let epoch_id = chain[0].node_id;
    let mut operations: Vec<BurnReplace> = Vec::new();
    let mut no: usize = 0;
    while no < n - 1
        invariant
            c == chain@,
            n == c.len(),
            n > 0,
            epoch_id == c[0].node_id,
            no <= n - 1,
            burn_ops_upto(asset_id, c, no as nat) == Ok::<Seq<BurnReplace>, Error>(operations@),
        decreases n - 1 - no,
    {
        let link = &chain[n - 1 - no];
        match closed_seal(link, OwnedRightType::BurnReplace) {
            Ok(seal) => {
                operations.push(
                    BurnReplace::with(asset_id, epoch_id, no, seal, link.node_id, link.witness),
                );
            },
            Err(e) => {
                proof {
                    lemma_burn_ops_failure_persists(asset_id, c, (no + 1) as nat, (n - 1) as nat, e);
                }
                return Err(e);
            },
        }
        no = no + 1;
    }
    Ok(operations)
}

/// Once reading a burn chain fails it stays failed with the same error.
pub proof fn lemma_burn_ops_failure_persists(
    asset_id: ContractId,
    chain: Seq<ChainLink>,
    k: nat,
    m: nat,
    e: Error,
)
    requires
        k <= m,
        burn_ops_upto(asset_id, chain, k) == Err::<Seq<BurnReplace>, Error>(e),
    ensures
        burn_ops_upto(asset_id, chain, m) == Err::<Seq<BurnReplace>, Error>(e),
    decreases m - k,
{
    if k < m {
        lemma_burn_ops_failure_persists(asset_id, chain, (k + 1) as nat, m, e);
    }
}

/// Once grouping operations fails it stays failed with the same error.
pub proof fn lemma_epoch_operations_failure_persists(
    asset_id: ContractId,
    chains: Seq<Vec<ChainLink>>,
    i: int,
    e: Error,
)
    requires
        0 <= i <= chains.len(),
        epoch_operations_after(asset_id, chains.take(i)) == Err::<
            Map<NodeId, Seq<BurnReplace>>,
            Error,
        >(e),
    ensures
        epoch_operations_after(asset_id, chains) == Err::<Map<NodeId, Seq<BurnReplace>>, Error>(e),
    decreases chains.len() - i,
{
    if i < chains.len() {
        assert(chains.take(i + 1).drop_last() =~= chains.take(i));
        lemma_epoch_operations_failure_persists(asset_id, chains, i + 1, e);
    } else {
        assert(chains.take(i) =~= chains);
    }
}

/// Groups the operations of the given burn chains by epoch.
pub fn collect_epoch_operations(asset_id: ContractId, chains: &Vec<Vec<ChainLink>>) -> (r: Result<
    EpochOperations,
    Error,
>)
    ensures
        match epoch_operations_after(asset_id, chains@) {
            Ok(m) => r matches Ok(ops) && ops.spec_map() == m,
            Err(e) => r is Err && r->Err_0 == e,
        },
{
    let ghost cs = chains@;
    let mut grouped = EpochOperations::new();
    let mut i: usize = 0;
    assert(cs.take(0) =~= Seq::<Vec<ChainLink>>::empty());
    while i < chains.len()
        invariant
            cs == chains@,
            i <= cs.len(),
            epoch_operations_after(asset_id, cs.take(i as int)) == Ok::<
                Map<NodeId, Seq<BurnReplace>>,
                Error,
            >(grouped.spec_map()),
        decreases cs.len() - i,
    {
        proof {
            assert(cs.take(i + 1).drop_last() =~= cs.take(i as int));
        }
        let chain = &chains[i];
        if chain.len() > 0 {
            match read_burn_operations(asset_id, chain) {
                Ok(ops) => {
                    grouped.insert(chain[0].node_id, ops);
                },
                Err(e) => {
                    proof {
                        lemma_epoch_operations_failure_persists(asset_id, cs, i + 1, e);
                    }
                    return Err(e);
                },
            }
        }
        i = i + 1;
    }
    assert(cs.take(cs.len() as int) =~= cs);
    Ok(grouped)
}

/// The mathematical content of an epoch record.
pub open spec fn epoch_content(e: Epoch) -> (NodeId, ContractId, usize, OutPoint, Seq<BurnReplace>, Txid) {
    (e.id, e.asset_id, e.no, e.closes, e.operations@, e.witness)
}

/// The first `k` epochs read from an epoch chain (listed from its endpoint
/// back in history), with the operation groups left over: epoch `j` is
/// opened by link `chain.len() - 1 - j` and takes the operations grouped
/// under that link's node id.
pub open spec fn epochs_upto(
    asset_id: ContractId,
    chain: Seq<ChainLink>,
    k: nat,
    grouped: Map<NodeId, Seq<BurnReplace>>,
) -> Result<
    (Seq<(NodeId, ContractId, usize, OutPoint, Seq<BurnReplace>, Txid)>, Map<NodeId, Seq<BurnReplace>>),
    Error,
>
    decreases k,
{
    if k == 0 {
        Ok((Seq::empty(), grouped))
    } else {
        match epochs_upto(asset_id, chain, (k - 1) as nat, grouped) {
            Err(e) => Err(e),
            Ok(pair) => {
                let link = chain[chain.len() - k];
                let m = pair.1;
                let taken = if m.contains_key(link.node_id) {
                    m[link.node_id]
                } else {
                    Seq::empty()
                };
                match closed_seal_of(link, OwnedRightType::OpenEpoch) {
                    Err(e) => Err(e),
                    Ok(seal) => Ok(
                        (
                            pair.0.push(
                                (link.node_id, asset_id, (k - 1) as usize, seal, taken, link.witness),
                            ),
                            m.remove(link.node_id),
                        ),
                    ),
                }
            },
        }
    }
}

/// Once reading epochs fails it stays failed with the same error.
pub proof fn lemma_epochs_failure_persists(
    asset_id: ContractId,
    chain: Seq<ChainLink>,
    k: nat,
    m: nat,
    grouped: Map<NodeId, Seq<BurnReplace>>,
    e: Error,
)
    requires
        k <= m,
        epochs_upto(asset_id, chain, k, grouped) is Err,
        epochs_upto(asset_id, chain, k, grouped)->Err_0 == e,
    ensures
        epochs_upto(asset_id, chain, m, grouped) is Err,
        epochs_upto(asset_id, chain, m, grouped)->Err_0 == e,
    decreases m - k,
{
    if k < m {
        lemma_epochs_failure_persists(asset_id, chain, (k + 1) as nat, m, grouped, e);
    }
}

/// Epochs read from the optional epoch chain of a consignment, with the
/// operation groups left over.
pub open spec fn consignment_epochs(
    asset_id: ContractId,
    chain: Option<Vec<ChainLink>>,
    grouped: Map<NodeId, Seq<BurnReplace>>,
) -> Result<
    (Seq<(NodeId, ContractId, usize, OutPoint, Seq<BurnReplace>, Txid)>, Map<NodeId, Seq<BurnReplace>>),
    Error,
> {
    match chain {
        None => Ok((Seq::empty(), grouped)),
        Some(c) => epochs_upto(asset_id, c@, c@.len(), grouped),
    }
}

/// Error raised adding the secondary issue made by `t`, if any.
pub open spec fn issue_error(t: IssueTransition) -> Option<Error> {
    match t.closed_seals {
        Err(e) => Some(Error::Inconsistency(e)),
        Ok(_) => if t.inflation_assignments is None {
            Some(Error::InflationAssignmentConfidential(t.node_id))
        } else {
            None
        },
    }
}

/// First error raised adding the secondary issues made by `ts`, if any.
pub open spec fn issues_error(ts: Seq<IssueTransition>) -> Option<Error>
    decreases ts.len(),
{
    if ts.len() == 0 {
        None
    } else {
        match issues_error(ts.drop_last()) {
            Some(e) => Some(e),
            None => issue_error(ts.last()),
        }
    }
}

/// Once adding issues fails it stays failed with the same error.
pub proof fn lemma_issues_error_persists(ts: Seq<IssueTransition>, i: int, e: Error)
    requires
        0 <= i <= ts.len(),
        issues_error(ts.take(i)) == Some(e),
    ensures
        issues_error(ts) == Some(e),
    decreases ts.len() - i,
{
    if i < ts.len() {
        assert(ts.take(i + 1).drop_last() =~= ts.take(i));
        lemma_issues_error_persists(ts, i + 1, e);
    } else {
        assert(ts.take(i) =~= ts);
    }
}

/// `issue` is the record of the secondary issue of asset `asset_id` made by
/// transition `t`.
pub open spec fn issue_from(issue: Issue, t: IssueTransition, asset_id: ContractId) -> bool {
    &&& issue.id == t.node_id
    &&& issue.asset_id == asset_id
    &&& t.closed_seals matches Ok(v) && issue.closed_seals@ == v@
    &&& issue.witness == Some(t.witness)
    &&& t.inflation_assignments == Some(issue.inflation_assignments)
}

/// Error raised adding the renominations made by `ts`: a renomination
/// without its Ricardian contract is refused.
pub open spec fn renominations_error(ts: Seq<RenominationTransition>) -> Option<Error> {
    if exists|i: int| 0 <= i < ts.len() && (#[trigger] ts[i]).ricardian_contract is None {
        Some(Error::RicardianContractMissed)
    } else {
        None
    }
}

/// `r` is the record of the renomination made by transition `t`.
pub open spec fn renomination_from(r: Renomination, t: RenominationTransition) -> bool {
    &&& r.id == t.node_id
    &&& r.witness == t.witness
    &&& r.nomination == Nomination {
        ticker: t.ticker,
        name: t.name,
        ricardian_contract: t.ricardian_contract,
        decimal_precision: t.decimal_precision,
    }
}

/// Revealed seal and amount of each revealed assignment, in order.
pub open spec fn revealed_assignments(s: Seq<ValueAssignment>) -> Seq<(SealDefinition, RevealedValue)>
    decreases s.len(),
{
    if s.len() == 0 {
        Seq::empty()
    } else {
        let prev = revealed_assignments(s.drop_last());
        match s.last() {
            ValueAssignment::Revealed { seal, state } => prev.push((seal, state)),
            ValueAssignment::Concealed => prev,
        }
    }
}

/// Allocations made by node `node` witnessed by `witness` for the given
/// revealed assignments, numbered by their position among them.
pub open spec fn allocations_of(node: NodeId, witness: Txid, r: Seq<(SealDefinition, RevealedValue)>) -> Seq<Allocation> {
    Seq::new(
        r.len(),
        |i: int|
            Allocation {
                node_id: node,
                index: (i as usize) as u16,
                outpoint: r[i].0.spec_outpoint_or(witness),
                revealed_amount: r[i].1,
            },
    )
}

/// Allocations made by an asset transition.
pub open spec fn transition_allocations(t: AssetTransition) -> Seq<Allocation> {
    allocations_of(t.node_id, t.witness, revealed_assignments(t.assignments@))
}

/// `s` with `a` appended unless `a` already occurs in it.
pub open spec fn with_new(s: Seq<Allocation>, a: Allocation) -> Seq<Allocation> {
    if s.contains(a) {
        s
    } else {
        s.push(a)
    }
}

/// `s` with each allocation of `new` appended in turn unless already
/// present.
pub open spec fn with_all_new(s: Seq<Allocation>, new: Seq<Allocation>) -> Seq<Allocation>
    decreases new.len(),
{
    if new.len() == 0 {
        s
    } else {
        with_new(with_all_new(s, new.drop_last()), new.last())
    }
}

/// `s` extended with the allocations of each transition of `ts` in turn.
pub open spec fn allocations_after(s: Seq<Allocation>, ts: Seq<AssetTransition>) -> Seq<Allocation>
    decreases ts.len(),
{
    if ts.len() == 0 {
        s
    } else {
        with_all_new(allocations_after(s, ts.drop_last()), transition_allocations(ts.last()))
    }
}

/// The first error met reading asset information from consignment `c`
/// against the RGB20 schema `schema`, or `None` when there is none: genesis
/// errors, then errors reading burn chains, then errors reading the epoch
/// chain, then operations left for epochs the consignment does not show,
/// then errors adding secondary issues, then renominations missing their
/// Ricardian contract.
pub open spec fn consignment_error(c: ConsignmentData, schema: SchemaId) -> Option<Error> {
    let id = c.genesis.contract_id;
    let grouped = epoch_operations_after(id, c.burn_chains@);
    let epochs = consignment_epochs(id, c.epoch_chain, grouped->Ok_0);
    if genesis_error(c.genesis, schema) is Some {
        genesis_error(c.genesis, schema)
    } else if grouped is Err {
        Some(grouped->Err_0)
    } else if epochs is Err {
        Some(epochs->Err_0)
    } else if epochs->Ok_0.1 != Map::<NodeId, Seq<BurnReplace>>::empty() {
        Some(Error::NotAllEpochsExposed)
    } else if issues_error(c.issues@) is Some {
        issues_error(c.issues@)
    } else {
        renominations_error(c.renominations@)
    }
}

} // verus!
