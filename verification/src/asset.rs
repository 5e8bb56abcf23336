//! The RGB20 asset record and the queries and updates it supports.

use vstd::prelude::*;

use crate::allocation::Allocation;
use crate::consignment::{
    allocations_after, allocations_of, closed_seal, closed_seal_of, collect_epoch_operations,
    consignment_epochs, consignment_error, epoch_content, epoch_operations_after, epochs_upto,
    issue_error, issue_from, issues_error, lemma_epochs_failure_persists,
    lemma_issues_error_persists, renomination_from, renominations_error, revealed_assignments,
    transition_allocations, with_all_new, with_new, EpochOperations,
};
use crate::error::{Error, OwnedRightType};
use crate::genesis::{
    compute_issue_limit, epoch_opening_seal, epoch_seal_of, genesis_allocations, genesis_error,
    genesis_nomination, genesis_unreadable, issue_limit_after, read_genesis_allocations,
};
use crate::history::{BurnReplace, Epoch, Issue};
use crate::ids::{AttachmentId, ContractId, NodeId, OutPoint, SchemaId, Txid};
use crate::inflation::{
    content_map, copy_indexes, entry_content, keys_ascending, lemma_content_map_take_step,
    InflationEntry, InflationMap,
};
use crate::nomination::{Nomination, Renomination, Supply, SupplyMeasure};
use crate::seal::RevealedValue;
use crate::source::{
    AssetTransition, ChainLink, ConsignmentData, GenesisData, IssueTransition,
    RenominationTransition, ValueAssignment,
};

verus! {

/// Sum of the atomic values of a sequence of allocations.
pub open spec fn total_value(s: Seq<Allocation>) -> int
    decreases s.len(),
{
    if s.len() == 0 {
        0
    } else {
        total_value(s.drop_last()) + s.last().revealed_amount.value
    }
}

/// Sum of the atomic values of the allocations whose position is marked in
/// `picks`.
pub open spec fn picked_value(s: Seq<Allocation>, picks: Seq<bool>) -> int
    decreases s.len(),
{
    if s.len() == 0 || picks.len() == 0 {
        0
    } else {
        picked_value(s.drop_last(), picks.drop_last()) + if picks.last() {
            s.last().revealed_amount.value as int
        } else {
            0
        }
    }
}

/// Allocations of `s` that are controlled by `outpoint`, in order.
pub open spec fn allocations_at(s: Seq<Allocation>, outpoint: OutPoint) -> Seq<Allocation> {
    s.filter(|a: Allocation| a.outpoint == outpoint)
}

/// Inflation-controlling outpoints known from a sequence of issues: the
/// union of their inflation maps, later issues overriding earlier ones.
pub open spec fn known_inflation_of(issues: Seq<Issue>) -> Map<OutPoint, (u64, Seq<u16>)>
    decreases issues.len(),
{
    if issues.len() == 0 {
        Map::empty()
    } else {
        known_inflation_of(issues.drop_last()).union_prefer_right(
            issues.last().inflation_assignments.spec_map(),
        )
    }
}

/// Prefix sums of allocation values never exceed the whole sum.
pub proof fn lemma_total_value_prefix(s: Seq<Allocation>, i: int)
    requires
        0 <= i <= s.len(),
    ensures
        total_value(s.take(i)) <= total_value(s),
        i < s.len() ==> total_value(s.take(i + 1)) == total_value(s.take(i))
            + s[i].revealed_amount.value,
    decreases s.len(),
{
    if i < s.len() {
        assert(s.take(i + 1).drop_last() =~= s.take(i));
        lemma_total_value_prefix(s.drop_last(), i);
        assert(s.drop_last().take(i) =~= s.take(i));
    } else {
        assert(s.take(i) =~= s);
    }
}

/// `a` carries what genesis `g` defines about the asset, apart from its
/// renominations, issues, epochs and allocations: identity, chain, date,
/// nomination, epoch-opening seal and supply.
pub open spec fn genesis_header(a: Asset, g: GenesisData) -> bool {
    let node = NodeId(g.contract_id.0);
    &&& a.spec_id() == g.contract_id
    &&& a.spec_chain() == g.chain@
    &&& a.spec_date() == g.timestamps@[0]
    &&& genesis_nomination(g) == Ok::<Nomination, Error>(a.spec_genesis_nomination())
    &&& epoch_seal_of(g.epoch_seals, node) == Ok::<Option<OutPoint>, Error>(
        a.spec_epoch_opening_seal(),
    )
    &&& a.spec_supply().known_circulating == g.issued_supply@[0]
    &&& a.spec_supply().total_circulating is None
    &&& issue_limit_after(g.inflation_states@) == Some(a.spec_supply().issue_limit as int)
}

/// `issue` is the primary issue made by genesis `g`.
pub open spec fn is_primary_issue(issue: Issue, g: GenesisData) -> bool {
    &&& issue.id == NodeId(g.contract_id.0)
    &&& issue.asset_id == g.contract_id
    &&& issue.closed_seals@.len() == 0
    &&& issue.witness is None
    &&& g.inflation_assignments == Some(issue.inflation_assignments)
}

/// `a` is the asset read from genesis `g`.
pub open spec fn is_genesis_asset(a: Asset, g: GenesisData) -> bool {
    &&& genesis_header(a, g)
    &&& a.spec_renominations().len() == 0
    &&& a.spec_issues().len() == 1
    &&& is_primary_issue(a.spec_issues()[0], g)
    &&& a.spec_epochs().len() == 0
    &&& genesis_allocations(NodeId(g.contract_id.0), g.asset_assignments@) == Ok::<
        Seq<Allocation>,
        Error,
    >(a.spec_allocations())
}

/// `a` is the asset read from consignment `c`: the genesis asset with the
/// secondary issues, the renominations, the epochs and the allocations of
/// the consignment's transitions added.
pub open spec fn is_consignment_asset(a: Asset, c: ConsignmentData) -> bool {
    let g = c.genesis;
    let id = g.contract_id;
    let grouped = epoch_operations_after(id, c.burn_chains@)->Ok_0;
    &&& genesis_header(a, g)
    &&& a.spec_issues().len() == c.issues@.len() + 1
    &&& is_primary_issue(a.spec_issues()[0], g)
    &&& forall|j: int|
        #![trigger c.issues@[j]]
        0 <= j < c.issues@.len() ==> issue_from(a.spec_issues()[j + 1], c.issues@[j], id)
    &&& a.spec_renominations().len() == c.renominations@.len()
    &&& forall|j: int|
        #![trigger c.renominations@[j]]
        0 <= j < c.renominations@.len() ==> renomination_from(
            a.spec_renominations()[j],
            c.renominations@[j],
        )
    &&& a.spec_epochs().map_values(|e: Epoch| epoch_content(e)) == consignment_epochs(
        id,
        c.epoch_chain,
        grouped,
    )->Ok_0.0
    &&& a.spec_allocations() == allocations_after(
        genesis_allocations(NodeId(id.0), g.asset_assignments@)->Ok_0,
        c.asset_transitions@,
    )
}

/// Data structure holding what is known about an RGB20 asset.
#[derive(Clone, PartialEq, Debug)]
pub struct Asset {
    /// Asset id, equal to the contract id and the genesis id.
    id: ContractId,
    /// Chain on which the asset is issued.
    chain: String,
    /// Asset creation time, in UNIX seconds.
    date: i64,
    /// Nomination assigned at issue time.
    genesis_nomination: Nomination,
    /// Known renominations; the last one holds the latest nomination.
    known_renominations: Vec<Renomination>,
    /// Known issues; the primary issue is always the first one.
    known_issues: Vec<Issue>,
    /// Seal controlling the opening of the first epoch.
    epoch_opening_seal: Option<OutPoint>,
    /// Burn & replace epochs, in order of their numbers.
    epochs: Vec<Epoch>,
    /// Asset supply figures.
    supply: Supply,
    /// Outpoints known to control amounts of the asset.
    known_allocations: Vec<Allocation>,
}

impl Asset {
    pub closed spec fn spec_id(&self) -> ContractId {
        self.id
    }

    pub closed spec fn spec_chain(&self) -> Seq<char> {
        self.chain@
    }

    pub closed spec fn spec_date(&self) -> i64 {
        self.date
    }

    pub closed spec fn spec_genesis_nomination(&self) -> Nomination {
        self.genesis_nomination
    }

    pub closed spec fn spec_renominations(&self) -> Seq<Renomination> {
        self.known_renominations@
    }

    pub closed spec fn spec_issues(&self) -> Seq<Issue> {
        self.known_issues@
    }

    pub closed spec fn spec_epoch_opening_seal(&self) -> Option<OutPoint> {
        self.epoch_opening_seal
    }

    pub closed spec fn spec_epochs(&self) -> Seq<Epoch> {
        self.epochs@
    }

    pub closed spec fn spec_supply(&self) -> Supply {
        self.supply
    }

    pub closed spec fn spec_allocations(&self) -> Seq<Allocation> {
        self.known_allocations@
    }

    /// Nomination resulting from the last known renomination, if any.
    pub open spec fn spec_last_nomination(&self) -> Option<Nomination> {
        if self.spec_renominations().len() > 0 {
            Some(self.spec_renominations().last().nomination)
        } else {
            None
        }
    }

    /// Active nomination: the last known renomination's, or else the
    /// genesis one.
    pub open spec fn spec_active_nomination(&self) -> Nomination {
        match self.spec_last_nomination() {
            Some(n) => n,
            None => self.spec_genesis_nomination(),
        }
    }

    /// `self` and `other` agree on everything but their allocations.
    pub open spec fn same_but_allocations(&self, other: &Asset) -> bool {
        &&& self.spec_id() == other.spec_id()
        &&& self.spec_chain() == other.spec_chain()
        &&& self.spec_date() == other.spec_date()
        &&& self.spec_genesis_nomination() == other.spec_genesis_nomination()
        &&& self.spec_renominations() == other.spec_renominations()
        &&& self.spec_issues() == other.spec_issues()
        &&& self.spec_epoch_opening_seal() == other.spec_epoch_opening_seal()
        &&& self.spec_epochs() == other.spec_epochs()
        &&& self.spec_supply() == other.spec_supply()
    }

    /// Reads the asset information from a contract genesis following the
    /// RGB20 schema whose id is `schema_id`.
    ///
    /// The asset gets the genesis nomination, its issued supply as known
    /// circulating supply, the issue limit accumulated over the inflation
    /// rights, the primary issue, the epoch-opening seal and the allocations
    /// of the genesis.
    pub fn from_genesis(genesis: GenesisData, schema_id: SchemaId) -> (r: Result<Asset, Error>)
        requires
            !genesis_unreadable(genesis, schema_id),
        ensures
            match genesis_error(genesis, schema_id) {
                Some(e) => r == Err::<Asset, Error>(e),
                None => r matches Ok(a) && is_genesis_asset(a, genesis),
            },
            r matches Ok(a) ==> a.spec_genesis_nomination().ricardian_contract
                == genesis.ricardian_contract,
    {
        let ghost g = genesis;
        let node = genesis.contract_id.genesis_node_id();
        if genesis.schema_id != schema_id {
            return Err(Error::WrongSchemaId);
        }
        if genesis.issued_supply.len() == 0 {
            return Err(Error::UnsatisfiedSchemaRequirement);
        }
        let supply = genesis.issued_supply[0];
        let issue_limit = match compute_issue_limit(&genesis.inflation_states) {
            Ok(limit) => limit,
            Err(e) => return Err(e),
        };
        let epoch_opening_seal = match epoch_opening_seal(&genesis.epoch_seals, node) {
            Ok(seal) => seal,
            Err(e) => return Err(e),
        };
        let nomination = Nomination::from_genesis(&genesis);
        let GenesisData {
            contract_id,
            chain,
            timestamps,
            inflation_assignments,
            asset_assignments,
            ..
        } = genesis;
        let issue = match Issue::with(contract_id, Vec::new(), node, inflation_assignments, None) {
            Ok(issue) => issue,
            Err(e) => return Err(e),
        };
        let known_allocations = match read_genesis_allocations(node, &asset_assignments) {
            Ok(v) => v,
            Err(e) => return Err(e),
        };
        let first_nomination = match nomination {
            Ok(n) => n,
            Err(e) => return Err(e),
        };
        if timestamps.len() == 0 {
            return Err(Error::UnsatisfiedSchemaRequirement);
        }
        let date = timestamps[0];
        let mut known_issues: Vec<Issue> = Vec::new();
        known_issues.push(issue);
        let asset = Asset {
            id: contract_id,
            chain,
            date,
            genesis_nomination: first_nomination,
            known_renominations: Vec::new(),
            known_issues,
            epoch_opening_seal,
            epochs: Vec::new(),
            supply: Supply::with(supply, None, issue_limit),
            known_allocations,
        };
        Ok(asset)
    }

    /// `self` and `other` agree on everything but their epochs.
    pub open spec fn same_but_epochs(&self, other: &Asset) -> bool {
        &&& self.spec_id() == other.spec_id()
        &&& self.spec_chain() == other.spec_chain()
        &&& self.spec_date() == other.spec_date()
        &&& self.spec_genesis_nomination() == other.spec_genesis_nomination()
        &&& self.spec_renominations() == other.spec_renominations()
        &&& self.spec_issues() == other.spec_issues()
        &&& self.spec_epoch_opening_seal() == other.spec_epoch_opening_seal()
        &&& self.spec_supply() == other.spec_supply()
        &&& self.spec_allocations() == other.spec_allocations()
    }

    /// `self` and `other` agree on everything but their issues.
    pub open spec fn same_but_issues(&self, other: &Asset) -> bool {
        &&& self.spec_id() == other.spec_id()
        &&& self.spec_chain() == other.spec_chain()
        &&& self.spec_date() == other.spec_date()
        &&& self.spec_genesis_nomination() == other.spec_genesis_nomination()
        &&& self.spec_renominations() == other.spec_renominations()
        &&& self.spec_epoch_opening_seal() == other.spec_epoch_opening_seal()
        &&& self.spec_epochs() == other.spec_epochs()
        &&& self.spec_supply() == other.spec_supply()
        &&& self.spec_allocations() == other.spec_allocations()
    }

    /// `self` and `other` agree on everything but their renominations.
    pub open spec fn same_but_renominations(&self, other: &Asset) -> bool {
        &&& self.spec_id() == other.spec_id()
        &&& self.spec_chain() == other.spec_chain()
        &&& self.spec_date() == other.spec_date()
        &&& self.spec_genesis_nomination() == other.spec_genesis_nomination()
        &&& self.spec_issues() == other.spec_issues()
        &&& self.spec_epoch_opening_seal() == other.spec_epoch_opening_seal()
        &&& self.spec_epochs() == other.spec_epochs()
        &&& self.spec_supply() == other.spec_supply()
        &&& self.spec_allocations() == other.spec_allocations()
    }

    /// Adds the epoch opened by `link` as epoch number `no`, with the given
    /// burn & replace operations. The epoch must close a seal of the
    /// epoch-opening right.
    fn add_epoch(&mut self, link: &ChainLink, no: usize, operations: Vec<BurnReplace>) -> (r:
        Result<(), Error>)
        requires
            no <= old(self).spec_epochs().len(),
        ensures
            match closed_seal_of(*link, OwnedRightType::OpenEpoch) {
                Err(e) => r == Err::<(), Error>(e) && *final(self) == *old(self),
                Ok(seal) => {
                    &&& r is Ok
                    &&& final(self).spec_epochs().map_values(|e: Epoch| epoch_content(e)) == old(
                        self,
                    ).spec_epochs().map_values(|e: Epoch| epoch_content(e)).insert(
                        no as int,
                        (link.node_id, old(self).spec_id(), no, seal, operations@, link.witness),
                    )
                    &&& final(self).same_but_epochs(&*old(self))
                },
            },
    {
        let closed_seal = match closed_seal(link, OwnedRightType::OpenEpoch) {
            Ok(seal) => seal,
            Err(e) => return Err(e),
        };
        let epoch = Epoch::with(self.id, no, closed_seal, link.node_id, operations, link.witness);
        let ghost before = self.epochs@;
        self.epochs.insert(no, epoch);
        assert(self.epochs@.map_values(|e: Epoch| epoch_content(e)) =~= before.map_values(
            |e: Epoch| epoch_content(e),
        ).insert(no as int, epoch_content(epoch)));
        Ok(())
    }

    /// Adds the secondary issue made by transition `t`.
    fn add_issue(&mut self, t: IssueTransition) -> (r: Result<(), Error>)
        ensures
            match issue_error(t) {
                Some(e) => r == Err::<(), Error>(e) && *final(self) == *old(self),
                None => {
                    &&& r is Ok
                    &&& final(self).spec_issues().len() == old(self).spec_issues().len() + 1
                    &&& final(self).spec_issues().drop_last() == old(self).spec_issues()
                    &&& old(self).spec_issues().is_prefix_of(final(self).spec_issues())
                    &&& old(self).spec_issues().len() >= 1 ==> final(self).spec_issues()[0] == old(
                        self,
                    ).spec_issues()[0]
                    &&& issue_from(final(self).spec_issues().last(), t, old(self).spec_id())
                    &&& final(self).same_but_issues(&*old(self))
                },
            },
    {
        let IssueTransition { node_id, witness, closed_seals, inflation_assignments } = t;
        let closed_seals = match closed_seals {
            Ok(v) => v,
            Err(e) => return Err(Error::Inconsistency(e)),
        };
        let issue = match Issue::with(
            self.id,
            closed_seals,
            node_id,
            inflation_assignments,
            Some(witness),
        ) {
            Ok(issue) => issue,
            Err(e) => return Err(e),
        };
        let ghost before = self.known_issues@;
        self.known_issues.push(issue);
        assert(self.known_issues@.drop_last() =~= before);
        assert(self.known_issues@.take(before.len() as int) =~= before);
        Ok(())
    }

    /// Adds the epochs of an epoch chain (listed from its endpoint back in
    /// history), oldest first and numbered from zero, each taking the burn &
    /// replace operations grouped under its node id.
    #[verifier::loop_isolation(false)]
    fn add_epochs(&mut self, chain: &Vec<ChainLink>, grouped: &mut EpochOperations) -> (r: Result<
        (),
        Error,
    >)
        requires
            old(self).spec_epochs().len() == 0,
        ensures
            match epochs_upto(
                old(self).spec_id(),
                chain@,
                chain@.len(),
                old(grouped).spec_map(),
            ) {
                Err(e) => r is Err && r->Err_0 == e,
                Ok(pair) => {
                    &&& r is Ok
                    &&& final(self).spec_epochs().map_values(|e: Epoch| epoch_content(e)) == pair.0
                    &&& final(grouped).spec_map() == pair.1
                    &&& final(self).same_but_epochs(&*old(self))
                },
            },
    {
        let ghost c = chain@;
        let ghost id = self.spec_id();
        let ghost g0 = grouped.spec_map();
        let n = chain.len();
        let mut no: usize = 0;
        assert(self.spec_epochs().map_values(|e: Epoch| epoch_content(e)) =~= Seq::empty());
        while no < n
            invariant
                c == chain@,
                n == c.len(),
                no <= n,
                id == self.spec_id(),
                self.spec_epochs().len() == no,
                self.same_but_epochs(&*old(self)),
                epochs_upto(id, c, no as nat, g0) == Ok::<
                    (
                        Seq<(NodeId, ContractId, usize, OutPoint, Seq<BurnReplace>, Txid)>,
                        Map<NodeId, Seq<BurnReplace>>,
                    ),
                    Error,
                >((self.spec_epochs().map_values(|e: Epoch| epoch_content(e)), grouped.spec_map())),
            decreases n - no,
        {
            let link = &chain[n - 1 - no];
            let ghost prev_epochs = self.spec_epochs().map_values(|e: Epoch| epoch_content(e));
            let operations = grouped.remove(link.node_id);
            match self.add_epoch(link, no, operations) {
                Ok(()) => {
                    proof {
                        let x = (
                            link.node_id,
                            id,
                            no,
                            closed_seal_of(*link, OwnedRightType::OpenEpoch)->Ok_0,
                            operations@,
                            link.witness,
                        );
                        assert(prev_epochs.insert(no as int, x) =~= prev_epochs.push(x));
                    }
                },
                Err(e) => {
                    proof {
                        lemma_epochs_failure_persists(id, c, (no + 1) as nat, n as nat, g0, e);
                    }
                    return Err(e);
                },
            }
            no = no + 1;
        }
        Ok(())
    }

    /// Adds the secondary issues made by the given transitions, in order.
    #[verifier::loop_isolation(false)]
    fn add_issues(&mut self, issues: Vec<IssueTransition>) -> (r: Result<(), Error>)
        ensures
            match issues_error(issues@) {
                Some(e) => r == Err::<(), Error>(e),
                None => {
                    &&& r is Ok
                    &&& final(self).spec_issues().len() == old(self).spec_issues().len()
                        + issues@.len()
                    &&& forall|j: int|
                        0 <= j < old(self).spec_issues().len() ==> #[trigger] final(self).spec_issues()[j]
                            == old(self).spec_issues()[j]
                    &&& forall|j: int|
                        #![trigger issues@[j]]
                        0 <= j < issues@.len() ==> issue_from(
                            final(self).spec_issues()[old(self).spec_issues().len() + j],
                            issues@[j],
                            old(self).spec_id(),
                        )
                    &&& final(self).same_but_issues(&*old(self))
                },
            },
    {
        let ghost ts = issues@;
        let ghost base = self.spec_issues();
        let total = issues.len();
        let mut rest = issues;
        let mut i: usize = 0;
        assert(ts.skip(0) =~= ts);
        assert(ts.take(0) =~= Seq::<IssueTransition>::empty());
        while rest.len() > 0
            invariant
                rest@ == ts.skip(i as int),
                i <= ts.len(),
                ts.len() == total,
                issues_error(ts.take(i as int)) is None,
                self.spec_issues().len() == base.len() + i,
                base == old(self).spec_issues(),
                forall|j: int| 0 <= j < base.len() ==> #[trigger] self.spec_issues()[j] == base[j],
                forall|j: int|
                    #![trigger ts[j]]
                    0 <= j < i ==> issue_from(self.spec_issues()[base.len() + j], ts[j], self.spec_id()),
                self.same_but_issues(&*old(self)),
            decreases rest.len(),
        {
            let ghost before = self.spec_issues();
            assert(rest@.len() == ts.len() - i);
            let t = rest.remove(0);
            proof {
                assert(t == ts[i as int]);
                assert(ts.take(i + 1).last() == ts[i as int]);
                assert(rest@ =~= ts.skip(i + 1));
                assert(ts.take(i + 1).drop_last() =~= ts.take(i as int));
            }
            match self.add_issue(t) {
                Ok(()) => {
                    proof {
                        assert forall|j: int| 0 <= j < base.len() implies #[trigger] self.spec_issues()[j]
                            == base[j] by {
                            assert(self.spec_issues()[j] == self.spec_issues().drop_last()[j]);
                        }
                        assert forall|j: int|
                            #![trigger ts[j]]
                            0 <= j < i + 1 implies issue_from(
                            self.spec_issues()[base.len() + j],
                            ts[j],
                            self.spec_id(),
                        ) by {
                            if j < i {
                                assert(self.spec_issues()[base.len() + j]
                                    == self.spec_issues().drop_last()[base.len() + j]);
                            }
                        }
                    }
                },
                Err(e) => {
                    proof {
                        lemma_issues_error_persists(ts, i + 1, e);
                    }
                    return Err(e);
                },
            }
            i = i + 1;
        }
        assert(ts.take(ts.len() as int) =~= ts);
        Ok(())
    }

    /// Adds the renominations made by the given transitions, in order; a
    /// renomination without its Ricardian contract is refused, and then
    /// none is added.
    #[verifier::loop_isolation(false)]
    fn add_renominations(&mut self, renominations: Vec<RenominationTransition>) -> (r: Result<
        (),
        Error,
    >)
        ensures
            match renominations_error(renominations@) {
                Some(e) => r == Err::<(), Error>(e) && *final(self) == *old(self),
                None => {
                    &&& r is Ok
                    &&& final(self).spec_renominations().len() == old(self).spec_renominations().len()
                        + renominations@.len()
                    &&& forall|j: int|
                        0 <= j < old(self).spec_renominations().len()
                            ==> #[trigger] final(self).spec_renominations()[j]
                            == old(self).spec_renominations()[j]
                    &&& forall|j: int|
                        #![trigger renominations@[j]]
                        0 <= j < renominations@.len() ==> renomination_from(
                            final(self).spec_renominations()[old(self).spec_renominations().len()
                                + j],
                            renominations@[j],
                        )
                    &&& final(self).same_but_renominations(&*old(self))
                },
            },
    {
        let ghost ts = renominations@;
        let ghost base = self.spec_renominations();
        let total = renominations.len();
        let mut k: usize = 0;
        while k < total
            invariant
                ts == renominations@,
                total == ts.len(),
                k <= total,
                forall|j: int| 0 <= j < k ==> (#[trigger] ts[j]).ricardian_contract is Some,
            decreases total - k,
        {
            if renominations[k].ricardian_contract.is_none() {
                assert(ts[k as int].ricardian_contract is None);
                return Err(Error::RicardianContractMissed);
            }
            k = k + 1;
        }
        assert(renominations_error(ts) is None);
        let mut rest = renominations;
        let mut i: usize = 0;
        assert(ts.skip(0) =~= ts);
        while rest.len() > 0
            invariant
                rest@ == ts.skip(i as int),
                i <= ts.len(),
                ts.len() == total,
                self.spec_renominations().len() == base.len() + i,
                base == old(self).spec_renominations(),
                forall|j: int|
                    0 <= j < base.len() ==> #[trigger] self.spec_renominations()[j] == base[j],
                forall|j: int|
                    #![trigger ts[j]]
                    0 <= j < i ==> renomination_from(self.spec_renominations()[base.len() + j], ts[j]),
                self.same_but_renominations(&*old(self)),
            decreases rest.len(),
        {
            assert(rest@.len() == ts.len() - i);
            let t = rest.remove(0);
            proof {
                assert(t == ts[i as int]);
                assert(rest@ =~= ts.skip(i + 1));
            }
            let RenominationTransition {
                node_id,
                witness,
                ticker,
                name,
                decimal_precision,
                ricardian_contract,
            } = t;
            let ghost before = self.known_renominations@;
            self.known_renominations.push(
                Renomination {
                    id: node_id,
                    witness,
                    nomination: Nomination { ticker, name, ricardian_contract, decimal_precision },
                },
            );
            proof {
                assert forall|j: int| 0 <= j < base.len() implies #[trigger] self.spec_renominations()[j]
                    == base[j] by {
                    assert(self.known_renominations@[j] == before[j]);
                }
                assert forall|j: int|
                    #![trigger ts[j]]
                    0 <= j < i + 1 implies renomination_from(
                    self.spec_renominations()[base.len() + j],
                    ts[j],
                ) by {
                    if j < i {
                        assert(self.known_renominations@[base.len() + j] == before[base.len() + j]);
                    }
                }
            }
            i = i + 1;
        }
        Ok(())
    }

    /// Adds the allocations made by transition `t` that are not yet known:
    /// one for each revealed assignment, numbered by its position among the
    /// revealed ones, at the seal's outpoint or, for a seal pointing to a
    /// witness output, at that output of `t`'s witness transaction.
    fn add_transition_allocations(&mut self, t: &AssetTransition)
        ensures
            final(self).spec_allocations() == with_all_new(
                old(self).spec_allocations(),
                transition_allocations(*t),
            ),
            final(self).same_but_allocations(&*old(self)),
    {
        let ghost a = t.assignments@;
        let ghost base = self.spec_allocations();
        let mut index: usize = 0;
        let mut j: usize = 0;
        assert(a.take(0) =~= Seq::<ValueAssignment>::empty());
        assert(allocations_of(t.node_id, t.witness, revealed_assignments(a.take(0))) =~= Seq::<
            Allocation,
        >::empty());
        while j < t.assignments.len()
            invariant
                a == t.assignments@,
                j <= a.len(),
                index == revealed_assignments(a.take(j as int)).len(),
                index <= j,
                self.spec_allocations() == with_all_new(
                    base,
                    allocations_of(t.node_id, t.witness, revealed_assignments(a.take(j as int))),
                ),
                base == old(self).spec_allocations(),
                self.same_but_allocations(&*old(self)),
            decreases a.len() - j,
        {
            let ghost r = revealed_assignments(a.take(j as int));
            proof {
                assert(a.take(j + 1).drop_last() =~= a.take(j as int));
            }
            match t.assignments[j] {
                ValueAssignment::Revealed { seal, state } => {
                    let ghost r2 = r.push((seal, state));
                    proof {
                        let old_allocs = allocations_of(t.node_id, t.witness, r);
                        let new_allocs = allocations_of(t.node_id, t.witness, r2);
                        assert(new_allocs.drop_last() =~= old_allocs);
                    }
                    self.add_allocation(seal.outpoint_or(t.witness), t.node_id, index as u16, state);
                    index = index + 1;
                },
                ValueAssignment::Concealed => {},
            }
            j = j + 1;
        }
        assert(a.take(a.len() as int) =~= a);
    }

    /// Adds the allocations made by each of the given transitions in turn.
    fn add_allocations_of(&mut self, transitions: &Vec<AssetTransition>)
        ensures
            final(self).spec_allocations() == allocations_after(
                old(self).spec_allocations(),
                transitions@,
            ),
            final(self).same_but_allocations(&*old(self)),
    {
        let ghost ts = transitions@;
        let ghost base = self.spec_allocations();
        let mut i: usize = 0;
        assert(ts.take(0) =~= Seq::<AssetTransition>::empty());
        while i < transitions.len()
            invariant
                ts == transitions@,
                i <= ts.len(),
                base == old(self).spec_allocations(),
                self.spec_allocations() == allocations_after(base, ts.take(i as int)),
                self.same_but_allocations(&*old(self)),
            decreases ts.len() - i,
        {
            proof {
                assert(ts.take(i + 1).drop_last() =~= ts.take(i as int));
            }
            self.add_transition_allocations(&transitions[i]);
            i = i + 1;
        }
        assert(ts.take(ts.len() as int) =~= ts);
    }

    /// Reads the asset information from a consignment whose genesis follows
    /// the RGB20 schema with id `schema_id`: the genesis asset, its burn &
    /// replace epochs with their operations, its secondary issues and the
    /// allocations made by its issue, burn & replace, transfer and rights
    /// split transitions.
    pub fn from_consignment(consignment: ConsignmentData, schema_id: SchemaId) -> (r: Result<
        Asset,
        Error,
    >)
        requires
            !genesis_unreadable(consignment.genesis, schema_id),
        ensures
            match consignment_error(consignment, schema_id) {
                Some(e) => r == Err::<Asset, Error>(e),
                None => r matches Ok(a) && is_consignment_asset(a, consignment),
            },
    {
        let ghost c = consignment;
        let ConsignmentData {
            genesis,
            burn_chains,
            epoch_chain,
            issues,
            renominations,
            asset_transitions,
        } = consignment;
        let mut asset = match Asset::from_genesis(genesis, schema_id) {
            Ok(a) => a,
            Err(e) => return Err(e),
        };
        let ghost genesis_asset = asset;
        let mut grouped = match collect_epoch_operations(asset.id, &burn_chains) {
            Ok(g) => g,
            Err(e) => return Err(e),
        };
        let ghost g0 = grouped.spec_map();
        match &epoch_chain {
            Some(chain) => {
                match asset.add_epochs(chain, &mut grouped) {
                    Ok(()) => {},
                    Err(e) => return Err(e),
                }
            },
            None => {
                assert(asset.spec_epochs().map_values(|e: Epoch| epoch_content(e)) =~= Seq::empty());
            },
        }
        if !grouped.is_empty() {
            return Err(Error::NotAllEpochsExposed);
        }
        let ghost before_issues = asset;
        match asset.add_issues(issues) {
            Ok(()) => {},
            Err(e) => return Err(e),
        }
        let ghost before_renominations = asset;
        match asset.add_renominations(renominations) {
            Ok(()) => {},
            Err(e) => return Err(e),
        }
        asset.add_allocations_of(&asset_transitions);
        proof {
            assert forall|j: int|
                #![trigger c.issues@[j]]
                0 <= j < c.issues@.len() implies issue_from(
                asset.spec_issues()[j + 1],
                c.issues@[j],
                c.genesis.contract_id,
            ) by {
                assert(before_issues.spec_issues().len() == 1);
            }
            assert forall|j: int|
                #![trigger c.renominations@[j]]
                0 <= j < c.renominations@.len() implies renomination_from(
                asset.spec_renominations()[j],
                c.renominations@[j],
            ) by {
                assert(before_renominations.spec_renominations().len() == 0);
            }
        }
        Ok(asset)
    }

    /// Asset id, equal to the contract id.
    pub fn id(&self) -> (r: ContractId)
        ensures
            r == self.spec_id(),
    {
        self.id
    }

    /// Name of the chain the asset is issued on.
    pub fn chain(&self) -> (r: &str)
        ensures
            r@ == self.spec_chain(),
    {
        self.chain.as_str()
    }

    /// Asset creation time, in UNIX seconds.
    pub fn date(&self) -> (r: i64)
        ensures
            r == self.spec_date(),
    {
        self.date
    }

    /// Nomination assigned at issue time.
    pub fn genesis_nomination(&self) -> (r: &Nomination)
        ensures
            *r == self.spec_genesis_nomination(),
    {
        &self.genesis_nomination
    }

    /// Known renominations, oldest first.
    pub fn known_renominations(&self) -> (r: &Vec<Renomination>)
        ensures
            r@ == self.spec_renominations(),
    {
        &self.known_renominations
    }

    /// Known issues; the primary issue comes first.
    pub fn known_issues(&self) -> (r: &Vec<Issue>)
        ensures
            r@ == self.spec_issues(),
    {
        &self.known_issues
    }

    /// Seal controlling the beginning of the first epoch.
    pub fn epoch_opening_seal(&self) -> (r: Option<OutPoint>)
        ensures
            r == self.spec_epoch_opening_seal(),
    {
        self.epoch_opening_seal
    }

    /// Burn & replace epochs.
    pub fn epochs(&self) -> (r: &Vec<Epoch>)
        ensures
            r@ == self.spec_epochs(),
    {
        &self.epochs
    }

    /// Asset supply figures.
    pub fn supply(&self) -> (r: Supply)
        ensures
            r == self.spec_supply(),
    {
        self.supply
    }

    /// Known allocations of the asset.
    pub fn known_allocations(&self) -> (r: &Vec<Allocation>)
        ensures
            r@ == self.spec_allocations(),
    {
        &self.known_allocations
    }

    /// Nomination resulting from the last known renomination.
    ///
    /// The result may not match the currently valid nomination when further
    /// renominations exist that are not yet known.
    pub fn last_nomination(&self) -> (r: Option<&Nomination>)
        ensures
            r matches Some(n) ==> self.spec_last_nomination() == Some(*n),
            r is None ==> self.spec_last_nomination() is None,
    {
        let n = self.known_renominations.len();
        if n > 0 {
            Some(self.known_renominations[n - 1].nomination())
        } else {
            None
        }
    }

    /// Active nomination: from the last known renomination or, when none is
    /// known, from the genesis.
    pub fn active_nomination(&self) -> (r: &Nomination)
        ensures
            *r == self.spec_active_nomination(),
    {
        match self.last_nomination() {
            Some(n) => n,
            None => &self.genesis_nomination,
        }
    }

    /// Current asset ticker, from the active nomination.
    pub fn ticker(&self) -> (r: &str)
        ensures
            r@ == self.spec_active_nomination().ticker@,
    {
        self.active_nomination().ticker()
    }

    /// Current asset name, from the active nomination.
    pub fn name(&self) -> (r: &str)
        ensures
            r@ == self.spec_active_nomination().name@,
    {
        self.active_nomination().name()
    }

    /// Current Ricardian contract attachment, from the active nomination.
    pub fn ricardian_contract(&self) -> (r: Option<AttachmentId>)
        ensures
            r == self.spec_active_nomination().ricardian_contract,
    {
        self.active_nomination().ricardian_contract()
    }

    /// Current decimal precision of the asset value, from the active
    /// nomination.
    pub fn decimal_precision(&self) -> (r: u8)
        ensures
            r == self.spec_active_nomination().decimal_precision,
    {
        self.active_nomination().decimal_precision()
    }

    /// The given measure of the asset supply in atomic value units, or
    /// `None` when it is not known.
    pub fn precise_supply(&self, measure: SupplyMeasure) -> (r: Option<u64>)
        ensures
            r == (match measure {
                SupplyMeasure::KnownCirculating => Some(self.spec_supply().known_circulating),
                SupplyMeasure::TotalCirculating => self.spec_supply().total_circulating,
                SupplyMeasure::IssueLimit => Some(self.spec_supply().issue_limit),
            }),
    {
        match measure {
            SupplyMeasure::KnownCirculating => Some(self.supply.known_circulating()),
            SupplyMeasure::TotalCirculating => match self.supply.total_circulating() {
                None => None,
                Some(supply) => Some(supply),
            },
            SupplyMeasure::IssueLimit => Some(self.supply.issue_limit()),
        }
    }

    /// Sum of all known allocations, in atomic value units.
    pub fn known_value(&self) -> (v: u64)
        requires
            total_value(self.spec_allocations()) <= u64::MAX,
        ensures
            v == total_value(self.spec_allocations()),
    {
        let ghost s = self.known_allocations@;
        let n = self.known_allocations.len();
        let mut sum: u64 = 0;
        let mut i: usize = 0;
        while i < n
            invariant
                s == self.known_allocations@,
                n == s.len(),
                i <= n,
                total_value(s) <= u64::MAX,
                sum == total_value(s.take(i as int)),
            decreases n - i,
        {
            proof {
                lemma_total_value_prefix(s, i as int);
                lemma_total_value_prefix(s, i + 1);
            }
            sum = sum + self.known_allocations[i].value();
            i = i + 1;
        }
        assert(s.take(n as int) =~= s);
        sum
    }

    /// Sum of the known allocations accepted by `filter`, in atomic value
    /// units. Useful for summing the outputs owned by a wallet.
    pub fn known_filtered_value<F: Fn(&Allocation) -> bool>(&self, filter: F) -> (v: u64)
        requires
            forall|i: int|
                0 <= i < self.spec_allocations().len() ==> #[trigger] filter.requires(
                    (&self.spec_allocations()[i],),
                ),
            forall|picks: Seq<bool>|
                picks.len() == self.spec_allocations().len() && (forall|i: int|
                    0 <= i < picks.len() ==> filter.ensures(
                        (&self.spec_allocations()[i],),
                        #[trigger] picks[i],
                    )) ==> #[trigger] picked_value(self.spec_allocations(), picks) <= u64::MAX,
        ensures
            exists|picks: Seq<bool>|
                {
                    &&& picks.len() == self.spec_allocations().len()
                    &&& forall|i: int|
                        0 <= i < picks.len() ==> filter.ensures(
                            (&self.spec_allocations()[i],),
                            #[trigger] picks[i],
                        )
                    &&& v == picked_value(self.spec_allocations(), picks)
                },
    {
        let ghost s = self.known_allocations@;
        let n = self.known_allocations.len();
        let mut sum: u128 = 0;
        let mut i: usize = 0;
        let ghost mut picks: Seq<bool> = Seq::empty();
        while i < n
            invariant
                s == self.known_allocations@,
                s == self.spec_allocations(),
                n == s.len(),
                i <= n,
                forall|j: int| 0 <= j < s.len() ==> #[trigger] filter.requires((&s[j],)),
                picks.len() == i,
                forall|j: int| 0 <= j < i ==> filter.ensures((&s[j],), #[trigger] picks[j]),
                sum == picked_value(s.take(i as int), picks),
                sum <= (i as int) * 0xFFFF_FFFF_FFFF_FFFF,
            decreases n - i,
        {
            let a = &self.known_allocations[i];
            let keep = filter(a);
            let ghost next = picks.push(keep);
            proof {
                assert(s.take(i + 1).drop_last() =~= s.take(i as int));
                assert(next.drop_last() =~= picks);
                assert(s.take(i + 1).last() == s[i as int]);
                assert(picked_value(s.take(i + 1), next) == picked_value(s.take(i as int), picks)
                    + if keep { s[i as int].revealed_amount.value as int } else { 0 });
            }
            if keep {
                sum = sum + a.value() as u128;
            }
            proof {
                picks = next;
            }
            i = i + 1;
        }
        assert(s.take(n as int) =~= s);
        assert(picked_value(self.spec_allocations(), picks) <= u64::MAX);
        sum as u64
    }

    /// Lists all known allocations controlled by `outpoint`, in order.
    pub fn outpoint_allocations(&self, outpoint: OutPoint) -> (r: Vec<Allocation>)
        ensures
            r@ == allocations_at(self.spec_allocations(), outpoint),
    {
        let ghost s = self.known_allocations@;
        let n = self.known_allocations.len();
        let mut r: Vec<Allocation> = Vec::new();
        let mut i: usize = 0;
        while i < n
            invariant
                s == self.known_allocations@,
                n == s.len(),
                i <= n,
                r@ == allocations_at(s.take(i as int), outpoint),
            decreases n - i,
        {
            proof {
                reveal_with_fuel(Seq::<_>::filter, 1);
                assert(s.take(i + 1).drop_last() =~= s.take(i as int));
            }
            let a = self.known_allocations[i];
            proof {
                assert(s.take(i + 1).last() == a);
            }
            if a.outpoint == outpoint {
                r.push(a);
            }
            i = i + 1;
        }
        assert(s.take(n as int) =~= s);
        r
    }

    /// Adds an allocation to the known ones, unless it is already known.
    /// Returns whether it was added.
    pub fn add_allocation(
        &mut self,
        outpoint: OutPoint,
        node_id: NodeId,
        index: u16,
        value: RevealedValue,
    ) -> (added: bool)
        ensures
            ({
                let a = Allocation { node_id, index, outpoint, revealed_amount: value };
                &&& added == !old(self).spec_allocations().contains(a)
                &&& final(self).spec_allocations() == with_new(old(self).spec_allocations(), a)
            }),
            final(self).same_but_allocations(&*old(self)),
    {
        let new_allocation = Allocation::with(node_id, index, outpoint, value);
        if !contains_allocation(&self.known_allocations, &new_allocation) {
            self.known_allocations.push(new_allocation);
            true
        } else {
            false
        }
    }

    /// Outpoints which, when spent, may indicate inflation happening, with
    /// the amount they may issue; later issues override earlier ones. Not
    /// all inflation-controlling outpoints may be known.
    pub fn known_inflation(&self) -> (m: InflationMap)
        ensures
            m.spec_map() == known_inflation_of(self.spec_issues()),
            keys_ascending(m.contents()),
            forall|j: int, k: OutPoint|
                0 <= j < self.spec_issues().len()
                    && #[trigger] self.spec_issues()[j].inflation_assignments.spec_map().contains_key(k)
                    ==> m.spec_map().contains_key(k),
            forall|j: int, k: OutPoint|
                0 <= j < self.spec_issues().len()
                    && #[trigger] self.spec_issues()[j].inflation_assignments.spec_map().contains_key(k)
                    && (forall|l: int|
                    j < l < self.spec_issues().len()
                        ==> !#[trigger] self.spec_issues()[l].inflation_assignments.spec_map().contains_key(k))
                    ==> m.spec_map()[k] == self.spec_issues()[j].inflation_assignments.spec_map()[k],
            forall|k: OutPoint|
                #[trigger] m.spec_map().contains_key(k) ==> exists|j: int|
                    0 <= j < self.spec_issues().len()
                        && #[trigger] self.spec_issues()[j].inflation_assignments.spec_map().contains_key(k),
    {
        proof {
            crate::laws::law_known_inflation_of_issues(self.spec_issues());
        }
        let ghost issues = self.known_issues@;
        let mut acc = InflationMap::new();
        let n = self.known_issues.len();
        let mut i: usize = 0;
        while i < n
            invariant
                issues == self.known_issues@,
                n == issues.len(),
                i <= n,
                acc.spec_map() == known_inflation_of(issues.take(i as int)),
                keys_ascending(acc.contents()),
            decreases n - i,
        {
            let entries = self.known_issues[i].inflation_assignments().entries();
            let ghost s = self.known_issues@[i as int].inflation_assignments.contents();
            let ghost base = known_inflation_of(issues.take(i as int));
            let m = entries.len();
            let mut j: usize = 0;
            proof {
                assert(s.take(0) =~= Seq::<(OutPoint, u64, Seq<u16>)>::empty());
                assert(content_map(s.take(0)) =~= Map::<OutPoint, (u64, Seq<u16>)>::empty());
                assert(base.union_prefer_right(content_map(s.take(0))) =~= base);
            }
            while j < m
                invariant
                    entries@.map_values(|e: InflationEntry| entry_content(e)) == s,
                    keys_ascending(s),
                    m == s.len(),
                    j <= m,
                    acc.spec_map() == base.union_prefer_right(content_map(s.take(j as int))),
                    keys_ascending(acc.contents()),
                decreases m - j,
            {
                let e = &entries[j];
                let indexes = copy_indexes(&e.indexes);
                proof {
                    assert(s[j as int] == entry_content(entries@[j as int]));
                    lemma_content_map_take_step(s, j as int);
                }
                acc.insert(e.seal, e.value, indexes);
                proof {
                    let k = s[j as int].0;
                    let v = (s[j as int].1, s[j as int].2);
                    assert(base.union_prefer_right(content_map(s.take(j as int)).insert(k, v))
                        =~= base.union_prefer_right(content_map(s.take(j as int))).insert(k, v));
                }
                j = j + 1;
            }
            proof {
                assert(s.take(m as int) =~= s);
                assert(issues.take(i + 1).drop_last() =~= issues.take(i as int));
                assert(content_map(s) == issues[i as int].inflation_assignments.spec_map());
            }
            i = i + 1;
        }
        assert(issues.take(n as int) =~= issues);
        acc
    }
}

/// The record's lists are held in vectors, so their lengths fit in `usize`.
pub proof fn lemma_asset_lengths(a: &Asset)
    ensures
        a.spec_issues().len() <= usize::MAX,
        a.spec_epochs().len() <= usize::MAX,
        a.spec_allocations().len() <= usize::MAX,
{
    assert(a.known_issues.len() == a.known_issues@.len());
    assert(a.epochs.len() == a.epochs@.len());
    assert(a.known_allocations.len() == a.known_allocations@.len());
}

/// Tells whether `a` occurs in `v`.
fn contains_allocation(v: &Vec<Allocation>, a: &Allocation) -> (r: bool)
    ensures
        r == v@.contains(*a),
{
    let mut i: usize = 0;
    while i < v.len()
        invariant
            i <= v.len(),
            forall|j: int| 0 <= j < i ==> v@[j] != *a,
        decreases v.len() - i,
    {
        if v[i] == *a {
            assert(v@[i as int] == *a);
            return true;
        }
        i = i + 1;
    }
    false
}

} // verus!
