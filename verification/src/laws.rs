//! Properties of the asset record that hold across its operations: what
//! adding allocations does to the known allocations and their value, how
//! filtered values relate to the known value, what a genesis asset knows of
//! inflation, how a bare consignment relates to its genesis, and how epochs
//! and their operations are numbered.

use vstd::prelude::*;

use crate::allocation::Allocation;
use crate::asset::{
    allocations_at, genesis_header, is_consignment_asset, is_genesis_asset, is_primary_issue, known_inflation_of,
    lemma_asset_lengths, picked_value, total_value, Asset,
};
use crate::consignment::{
    allocations_after, burn_ops_upto, consignment_epochs, consignment_error, epoch_content,
    epoch_operations_after, epochs_upto, renomination_from, renominations_error, with_all_new,
    with_new,
};
use crate::error::Error;
use crate::genesis::genesis_error;
use crate::history::{BurnReplace, Epoch, Issue};
use crate::inflation::InflationMap;
use crate::nomination::Nomination;
use crate::ids::{ContractId, NodeId, OutPoint, SchemaId};
use crate::source::{AssetTransition, ChainLink, ConsignmentData, GenesisData};

verus! {

/// Adding an allocation leaves it known, so adding the same allocation a
/// second time is refused and leaves the known allocations as they were;
/// and adding never makes distinct allocations repeat.
pub proof fn law_add_allocation_idempotent(s: Seq<Allocation>, a: Allocation)
    ensures
        with_new(s, a).contains(a),
        with_new(with_new(s, a), a) == with_new(s, a),
        s.no_duplicates() ==> with_new(s, a).no_duplicates(),
{
    if !s.contains(a) {
        assert(s.push(a)[s.len() as int] == a);
    }
}

/// Adding an allocation that is not yet known raises the known value by
/// its atomic value; adding a known one leaves the known value unchanged.
pub proof fn law_add_allocation_value(s: Seq<Allocation>, a: Allocation)
    ensures
        total_value(with_new(s, a)) == total_value(s) + if s.contains(a) {
            0
        } else {
            a.revealed_amount.value as int
        },
{
    if !s.contains(a) {
        assert(s.push(a).drop_last() =~= s);
    }
}

/// The value of the allocations a filter accepts lies between zero and the
/// known value; a filter accepting every allocation gives the known value,
/// one refusing every allocation gives zero.
pub proof fn law_filtered_value_bounds(s: Seq<Allocation>, picks: Seq<bool>)
    requires
        picks.len() == s.len(),
    ensures
        0 <= picked_value(s, picks) <= total_value(s),
        (forall|i: int| 0 <= i < picks.len() ==> #[trigger] picks[i]) ==> picked_value(s, picks)
            == total_value(s),
        (forall|i: int| 0 <= i < picks.len() ==> !#[trigger] picks[i]) ==> picked_value(s, picks)
            == 0,
    decreases s.len(),
{
    if s.len() > 0 {
        law_filtered_value_bounds(s.drop_last(), picks.drop_last());
        if forall|i: int| 0 <= i < picks.len() ==> #[trigger] picks[i] {
            assert forall|i: int| 0 <= i < picks.drop_last().len() implies #[trigger] picks.drop_last()[i] by {
                assert(picks[i]);
            }
            assert(picks[picks.len() - 1]);
        }
        if forall|i: int| 0 <= i < picks.len() ==> !#[trigger] picks[i] {
            assert forall|i: int| 0 <= i < picks.drop_last().len() implies !#[trigger] picks.drop_last()[i] by {
                assert(!picks[i]);
            }
            assert(!picks[picks.len() - 1]);
        }
    }
}

/// Allocations added from state transitions never repeat a known one: when
/// the known allocations are distinct, they stay distinct.
pub proof fn law_transitions_keep_allocations_distinct(s: Seq<Allocation>, ts: Seq<AssetTransition>)
    requires
        s.no_duplicates(),
    ensures
        allocations_after(s, ts).no_duplicates(),
    decreases ts.len(),
{
    if ts.len() > 0 {
        law_transitions_keep_allocations_distinct(s, ts.drop_last());
        lemma_all_new_distinct(
            allocations_after(s, ts.drop_last()),
            crate::consignment::transition_allocations(ts.last()),
        );
    }
}

/// Appending each new allocation in turn keeps a distinct sequence
/// distinct.
proof fn lemma_all_new_distinct(s: Seq<Allocation>, new: Seq<Allocation>)
    requires
        s.no_duplicates(),
    ensures
        with_all_new(s, new).no_duplicates(),
    decreases new.len(),
{
    if new.len() > 0 {
        lemma_all_new_distinct(s, new.drop_last());
        law_add_allocation_idempotent(with_all_new(s, new.drop_last()), new.last());
    }
}

/// The primary issue comes first among the known issues of an asset read
/// from a genesis or from a consignment.
pub proof fn law_primary_issue_first(a: Asset, c: ConsignmentData)
    ensures
        is_genesis_asset(a, c.genesis) ==> is_primary_issue(a.spec_issues()[0], c.genesis),
        is_consignment_asset(a, c) ==> is_primary_issue(a.spec_issues()[0], c.genesis),
{
}

/// Appending an issue keeps the known issues as a prefix, so the primary
/// issue stays first.
pub proof fn law_appended_issue_keeps_prefix(before: Seq<Issue>, after: Seq<Issue>)
    requires
        after.len() == before.len() + 1,
        after.drop_last() == before,
    ensures
        before.is_prefix_of(after),
        before.len() >= 1 ==> after[0] == before[0],
{
    assert(after.take(before.len() as int) =~= before);
    if before.len() >= 1 {
        assert(after.drop_last()[0] == after[0]);
    }
}

/// The inflation known from an asset read from a genesis is exactly the
/// genesis's own inflation assignments.
pub proof fn law_genesis_known_inflation(a: Asset, g: GenesisData)
    requires
        is_genesis_asset(a, g),
    ensures
        g.inflation_assignments is Some,
        known_inflation_of(a.spec_issues()) == g.inflation_assignments->Some_0.spec_map(),
{
    let issues = a.spec_issues();
    let m = issues[0].inflation_assignments.spec_map();
    assert(issues.drop_last() =~= Seq::empty());
    assert(known_inflation_of(Seq::<crate::history::Issue>::empty()) == Map::<OutPoint, (u64, Seq<u16>)>::empty());
    assert(issues.last() == issues[0]);
    assert(known_inflation_of(issues) == known_inflation_of(issues.drop_last()).union_prefer_right(m));
    assert(Map::<OutPoint, (u64, Seq<u16>)>::empty().union_prefer_right(m) =~= m);
}

/// A consignment holding nothing but its genesis is read as that genesis
/// is: it fails exactly when and as the genesis does, and otherwise gives
/// exactly the asset read from the genesis.
pub proof fn law_bare_consignment_is_genesis(c: ConsignmentData, schema: SchemaId, a: Asset)
    requires
        c.burn_chains@.len() == 0,
        c.epoch_chain is None,
        c.issues@.len() == 0,
        c.renominations@.len() == 0,
        c.asset_transitions@.len() == 0,
    ensures
        consignment_error(c, schema) == genesis_error(c.genesis, schema),
        genesis_error(c.genesis, schema) is None ==> (is_consignment_asset(a, c)
            <==> is_genesis_asset(a, c.genesis)),
{
    let id = c.genesis.contract_id;
    assert(c.burn_chains@ =~= Seq::<Vec<ChainLink>>::empty());
    assert(epoch_operations_after(id, c.burn_chains@) == Ok::<
        Map<NodeId, Seq<BurnReplace>>,
        Error,
    >(Map::empty()));
    assert(renominations_error(c.renominations@) is None);
    if genesis_error(c.genesis, schema) is None {
        assert(c.asset_transitions@ =~= Seq::<AssetTransition>::empty());
        let eps = a.spec_epochs().map_values(|e: Epoch| epoch_content(e));
        if is_consignment_asset(a, c) {
            assert(eps.len() == 0);
        }
        if is_genesis_asset(a, c.genesis) {
            assert(eps =~= Seq::empty());
        }
    }
}

/// The renominations of an asset read from a consignment are those the
/// consignment holds, in order; when there is one at least, the last of
/// them gives the last and the active nomination.
pub proof fn law_last_renomination_active(a: Asset, c: ConsignmentData, schema: SchemaId)
    requires
        consignment_error(c, schema) is None,
        is_consignment_asset(a, c),
    ensures
        a.spec_renominations().len() == c.renominations@.len(),
        forall|j: int|
            0 <= j < c.renominations@.len() ==> (#[trigger] a.spec_renominations()[j]).nomination
                == (Nomination {
                ticker: c.renominations@[j].ticker,
                name: c.renominations@[j].name,
                ricardian_contract: c.renominations@[j].ricardian_contract,
                decimal_precision: c.renominations@[j].decimal_precision,
            }),
        forall|j: int|
            0 <= j < c.renominations@.len() ==> (#[trigger] a.spec_renominations()[j]).nomination.ricardian_contract is Some,
        c.renominations@.len() > 0 ==> {
            let t = c.renominations@.last();
            let n = Nomination {
                ticker: t.ticker,
                name: t.name,
                ricardian_contract: t.ricardian_contract,
                decimal_precision: t.decimal_precision,
            };
            &&& a.spec_last_nomination() == Some(n)
            &&& a.spec_active_nomination() == n
        },
        c.renominations@.len() == 0 ==> a.spec_last_nomination() is None
            && a.spec_active_nomination() == a.spec_genesis_nomination(),
{
    let ts = c.renominations@;
    assert forall|j: int| 0 <= j < ts.len() implies (#[trigger] a.spec_renominations()[j]).nomination.ricardian_contract is Some by {
        assert(renomination_from(a.spec_renominations()[j], ts[j]));
        if ts[j].ricardian_contract is None {
            assert(renominations_error(ts) is Some);
        }
    }
    if ts.len() > 0 {
        assert(renomination_from(a.spec_renominations()[ts.len() - 1], ts[ts.len() - 1]));
    }
}

/// Accepting one more allocation raises the filtered value by exactly that
/// allocation's value: each allocation counts in the filtered value when,
/// and only when, the filter accepts it.
pub proof fn law_filtered_value_flip(s: Seq<Allocation>, picks: Seq<bool>, i: int)
    requires
        picks.len() == s.len(),
        0 <= i < s.len(),
        !picks[i],
    ensures
        picked_value(s, picks.update(i, true)) == picked_value(s, picks)
            + s[i].revealed_amount.value,
    decreases s.len(),
{
    let up = picks.update(i, true);
    if i == s.len() - 1 {
        assert(up.drop_last() =~= picks.drop_last());
    } else {
        law_filtered_value_flip(s.drop_last(), picks.drop_last(), i);
        assert(up.drop_last() =~= picks.drop_last().update(i, true));
    }
}

/// The value a filter accepts and the value its negation accepts add up to
/// the known value.
pub proof fn law_filtered_value_complement(s: Seq<Allocation>, picks: Seq<bool>)
    requires
        picks.len() == s.len(),
    ensures
        picked_value(s, picks) + picked_value(s, Seq::new(picks.len(), |i: int| !picks[i]))
            == total_value(s),
    decreases s.len(),
{
    if s.len() > 0 {
        let neg = Seq::new(picks.len(), |i: int| !picks[i]);
        let p = picks.drop_last();
        law_filtered_value_complement(s.drop_last(), p);
        assert(neg.drop_last() =~= Seq::new(p.len(), |i: int| !p[i]));
    }
}

/// Every outpoint to which some known issue assigns inflation is listed,
/// with the amount and indexes given by the last issue assigning it, and
/// nothing else is listed.
pub proof fn law_known_inflation_of_issues(issues: Seq<Issue>)
    ensures
        forall|j: int, k: OutPoint|
            0 <= j < issues.len() && #[trigger] issues[j].inflation_assignments.spec_map().contains_key(k)
                ==> known_inflation_of(issues).contains_key(k),
        forall|j: int, k: OutPoint|
            0 <= j < issues.len() && #[trigger] issues[j].inflation_assignments.spec_map().contains_key(k)
                && (forall|l: int|
                j < l < issues.len() ==> !#[trigger] issues[l].inflation_assignments.spec_map().contains_key(k))
                ==> known_inflation_of(issues)[k] == issues[j].inflation_assignments.spec_map()[k],
        forall|k: OutPoint|
            #[trigger] known_inflation_of(issues).contains_key(k) ==> exists|j: int|
                0 <= j < issues.len() && #[trigger] issues[j].inflation_assignments.spec_map().contains_key(k),
    decreases issues.len(),
{
    if issues.len() > 0 {
        let p = issues.drop_last();
        let n = issues.len() - 1;
        law_known_inflation_of_issues(p);
        let last = issues[n].inflation_assignments.spec_map();
        let before = known_inflation_of(p);
        assert(known_inflation_of(issues) == before.union_prefer_right(last));
        assert forall|j: int, k: OutPoint|
            0 <= j < issues.len() && #[trigger] issues[j].inflation_assignments.spec_map().contains_key(k)
            implies known_inflation_of(issues).contains_key(k) by {
            if j < n {
                assert(p[j] == issues[j]);
            }
        }
        assert forall|j: int, k: OutPoint|
            0 <= j < issues.len() && #[trigger] issues[j].inflation_assignments.spec_map().contains_key(k)
                && (forall|l: int|
                j < l < issues.len() ==> !#[trigger] issues[l].inflation_assignments.spec_map().contains_key(k))
            implies known_inflation_of(issues)[k] == issues[j].inflation_assignments.spec_map()[k] by {
            if j < n {
                assert(p[j] == issues[j]);
                assert(!last.contains_key(k));
                assert forall|l: int| j < l < p.len() implies !#[trigger] p[l].inflation_assignments.spec_map().contains_key(k) by {
                    assert(p[l] == issues[l]);
                }
            }
        }
        assert forall|k: OutPoint| #[trigger] known_inflation_of(issues).contains_key(k) implies exists|j: int|
            0 <= j < issues.len() && #[trigger] issues[j].inflation_assignments.spec_map().contains_key(k) by {
            if last.contains_key(k) {
                assert(issues[n].inflation_assignments.spec_map().contains_key(k));
            } else {
                let j = choose|j: int| 0 <= j < p.len() && #[trigger] p[j].inflation_assignments.spec_map().contains_key(k);
                assert(p[j] == issues[j]);
                assert(issues[j].inflation_assignments.spec_map().contains_key(k));
            }
        }
    }
}

/// An asset read from a genesis, or from a consignment, carries the
/// genesis's own nomination: its first ticker, name and precision and its
/// Ricardian contract attachment.
pub proof fn law_genesis_nomination_kept(a: Asset, g: GenesisData)
    requires
        genesis_header(a, g),
    ensures
        a.spec_genesis_nomination().ticker == g.tickers@[0],
        a.spec_genesis_nomination().name == g.names@[0],
        a.spec_genesis_nomination().decimal_precision == g.precisions@[0],
        a.spec_genesis_nomination().ricardian_contract == g.ricardian_contract,
{
}

/// Each secondary issue of an asset read from a consignment is the record
/// of the matching issue transition, listing every inflation seal that
/// transition closed, in order.
pub proof fn law_secondary_issues_recorded(a: Asset, c: ConsignmentData)
    requires
        is_consignment_asset(a, c),
    ensures
        forall|j: int|
            #![trigger c.issues@[j]]
            0 <= j < c.issues@.len() ==> {
                &&& c.issues@[j].closed_seals is Ok
                &&& a.spec_issues()[j + 1].closed_seals@ == c.issues@[j].closed_seals->Ok_0@
                &&& a.spec_issues()[j + 1].id == c.issues@[j].node_id
                &&& a.spec_issues()[j + 1].witness == Some(c.issues@[j].witness)
                &&& a.spec_issues()[j + 1].asset_id == a.spec_id()
                &&& c.issues@[j].inflation_assignments == Some(
                    a.spec_issues()[j + 1].inflation_assignments,
                )
            },
{
}

/// The operations read from a burn chain, listed from its endpoint back in
/// history: reading succeeds exactly when each of the links read closes a
/// seal; operation `j` is made by link `chain.len() - 1 - j`, closes the
/// first seal that link closes, carries its witness, names the endpoint as
/// its epoch and is numbered `j`.
pub proof fn law_burn_operations_from_links(asset_id: ContractId, chain: Seq<ChainLink>, k: nat)
    requires
        k <= chain.len(),
    ensures
        burn_ops_upto(asset_id, chain, k) is Ok <==> forall|i: int|
            chain.len() - k <= i < chain.len() ==> (#[trigger] chain[i]).closed_seals is Ok
                && chain[i].closed_seals->Ok_0@.len() > 0,
        burn_ops_upto(asset_id, chain, k) is Ok ==> {
            let ops = burn_ops_upto(asset_id, chain, k)->Ok_0;
            &&& ops.len() == k
            &&& forall|j: int|
                #![trigger ops[j]]
                0 <= j < k ==> {
                    let link = chain[chain.len() - 1 - j];
                    &&& ops[j].closes == link.closed_seals->Ok_0@[0]
                    &&& ops[j].id == link.node_id
                    &&& ops[j].witness == link.witness
                    &&& ops[j].epoch_id == chain[0].node_id
                    &&& ops[j].asset_id == asset_id
                    &&& ops[j].no == j as usize
                }
        },
    decreases k,
{
    if k > 0 {
        law_burn_operations_from_links(asset_id, chain, (k - 1) as nat);
        let link = chain[chain.len() - k];
        if burn_ops_upto(asset_id, chain, (k - 1) as nat) is Ok {
            let prev = burn_ops_upto(asset_id, chain, (k - 1) as nat)->Ok_0;
            if burn_ops_upto(asset_id, chain, k) is Ok {
                let ops = burn_ops_upto(asset_id, chain, k)->Ok_0;
                assert(ops.drop_last() == prev);
                assert forall|j: int| #![trigger ops[j]] 0 <= j < k - 1 implies ops[j] == prev[j] by {
                    assert(ops[j] == ops.drop_last()[j]);
                }
                assert forall|i: int| chain.len() - k <= i < chain.len() implies (#[trigger] chain[i]).closed_seals is Ok
                    && chain[i].closed_seals->Ok_0@.len() > 0 by {
                    if i > chain.len() - k {
                        assert(chain[i].closed_seals is Ok);
                    }
                }
            } else {
                assert(!(link.closed_seals is Ok && link.closed_seals->Ok_0@.len() > 0));
                assert(!(chain[chain.len() - k].closed_seals is Ok && chain[chain.len() - k].closed_seals->Ok_0@.len() > 0));
            }
        } else {
            let i0 = choose|i: int| chain.len() - (k - 1) <= i < chain.len() && !((#[trigger] chain[i]).closed_seals is Ok
                && chain[i].closed_seals->Ok_0@.len() > 0);
            assert(chain[i0].closed_seals is Ok ==> chain[i0].closed_seals->Ok_0@.len() == 0);
        }
    }
}

/// Operations grouped under each epoch id name that epoch and the asset,
/// and are numbered by their position.
pub open spec fn operations_labelled(
    m: Map<NodeId, Seq<BurnReplace>>,
    asset_id: ContractId,
) -> bool {
    forall|k: NodeId, j: int|
        #![trigger m[k][j]]
        m.contains_key(k) && 0 <= j < m[k].len() ==> {
            &&& m[k][j].epoch_id == k
            &&& m[k][j].asset_id == asset_id
            &&& m[k][j].no == j as usize
        }
}

/// Operations read from a burn chain name the epoch of its endpoint and
/// are numbered by their position.
proof fn lemma_burn_ops_labelled(asset_id: ContractId, chain: Seq<ChainLink>, k: nat)
    requires
        burn_ops_upto(asset_id, chain, k) is Ok,
    ensures
        ({
            let ops = burn_ops_upto(asset_id, chain, k)->Ok_0;
            &&& ops.len() == k
            &&& forall|j: int|
                #![trigger ops[j]]
                0 <= j < k ==> ops[j].epoch_id == chain[0].node_id && ops[j].asset_id == asset_id
                    && ops[j].no == j as usize
        }),
    decreases k,
{
    if k > 0 {
        lemma_burn_ops_labelled(asset_id, chain, (k - 1) as nat);
    }
}

/// Grouping the operations of burn chains labels each group with its epoch.
proof fn lemma_grouped_labelled(asset_id: ContractId, chains: Seq<Vec<ChainLink>>)
    requires
        epoch_operations_after(asset_id, chains) is Ok,
    ensures
        operations_labelled(epoch_operations_after(asset_id, chains)->Ok_0, asset_id),
    decreases chains.len(),
{
    if chains.len() > 0 {
        lemma_grouped_labelled(asset_id, chains.drop_last());
        let c = chains.last()@;
        if c.len() > 0 {
            lemma_burn_ops_labelled(asset_id, c, (c.len() - 1) as nat);
        }
    }
}

/// Epochs read from an epoch chain are numbered by their position, belong
/// to the asset, and take operations labelled with their own id; the groups
/// left over stay labelled.
proof fn lemma_epochs_labelled(
    asset_id: ContractId,
    chain: Seq<ChainLink>,
    k: nat,
    grouped: Map<NodeId, Seq<BurnReplace>>,
)
    requires
        operations_labelled(grouped, asset_id),
        epochs_upto(asset_id, chain, k, grouped) is Ok,
    ensures
        ({
            let pair = epochs_upto(asset_id, chain, k, grouped)->Ok_0;
            &&& pair.0.len() == k
            &&& operations_labelled(pair.1, asset_id)
            &&& forall|i: int|
                #![trigger pair.0[i]]
                0 <= i < k ==> {
                    &&& pair.0[i].1 == asset_id
                    &&& pair.0[i].2 == i as usize
                    &&& forall|j: int|
                        #![trigger pair.0[i].4[j]]
                        0 <= j < pair.0[i].4.len() ==> pair.0[i].4[j].epoch_id == pair.0[i].0
                            && pair.0[i].4[j].asset_id == asset_id && pair.0[i].4[j].no
                            == j as usize
                }
        }),
    decreases k,
{
    if k > 0 {
        lemma_epochs_labelled(asset_id, chain, (k - 1) as nat, grouped);
        let prev = epochs_upto(asset_id, chain, (k - 1) as nat, grouped)->Ok_0;
        let m = prev.1;
        let link = chain[chain.len() - k];
        let pair = epochs_upto(asset_id, chain, k, grouped)->Ok_0;
        assert(pair.0.drop_last() == prev.0);
        assert forall|i: int| #![trigger pair.0[i]] 0 <= i < k - 1 implies pair.0[i] == prev.0[i] by {
            assert(pair.0[i] == pair.0.drop_last()[i]);
        }
        assert forall|kk: NodeId, j: int|
            #![trigger pair.1[kk][j]]
            pair.1.contains_key(kk) && 0 <= j < pair.1[kk].len() implies {
            &&& pair.1[kk][j].epoch_id == kk
            &&& pair.1[kk][j].asset_id == asset_id
            &&& pair.1[kk][j].no == j as usize
        } by {
            assert(pair.1[kk] == m[kk]);
            assert(m[kk][j] == pair.1[kk][j]);
        }
        if m.contains_key(link.node_id) {
            let taken = m[link.node_id];
            assert forall|j: int| 0 <= j < taken.len() implies #[trigger] taken[j].epoch_id
                == link.node_id && taken[j].asset_id == asset_id && taken[j].no == j as usize by {
                assert(m[link.node_id][j] == taken[j]);
            }
        }
    }
}

/// The epochs of an asset read from a consignment belong to the asset and
/// are numbered by their position from zero; each burn & replace operation
/// of an epoch names that epoch and the asset, and is numbered by its
/// position within the epoch.
pub proof fn law_epochs_numbered(a: Asset, c: ConsignmentData, schema: SchemaId)
    requires
        consignment_error(c, schema) is None,
        is_consignment_asset(a, c),
    ensures
        forall|i: int|
            0 <= i < a.spec_epochs().len() ==> (#[trigger] a.spec_epochs()[i]).no == i
                && a.spec_epochs()[i].asset_id == a.spec_id(),
        forall|i: int, j: int|
            0 <= i < a.spec_epochs().len() && 0 <= j < a.spec_epochs()[i].operations@.len() ==> {
                &&& (#[trigger] a.spec_epochs()[i].operations@[j]).epoch_id == a.spec_epochs()[i].id
                &&& a.spec_epochs()[i].operations@[j].asset_id == a.spec_id()
                &&& a.spec_epochs()[i].operations@[j].no == j
            },
{
    let id = c.genesis.contract_id;
    let grouped = epoch_operations_after(id, c.burn_chains@)->Ok_0;
    let eps = a.spec_epochs().map_values(|e: Epoch| epoch_content(e));
    lemma_grouped_labelled(id, c.burn_chains@);
    lemma_asset_lengths(&a);
    match c.epoch_chain {
        None => {
            assert(eps.len() == 0);
        },
        Some(chain) => {
            lemma_epochs_labelled(id, chain@, chain@.len(), grouped);
        },
    }
    let pairs = consignment_epochs(id, c.epoch_chain, grouped)->Ok_0.0;
    assert forall|i: int| 0 <= i < a.spec_epochs().len() implies (#[trigger] a.spec_epochs()[i]).no
        == i && a.spec_epochs()[i].asset_id == a.spec_id() by {
        assert(eps[i] == pairs[i]);
    }
    assert forall|i: int, j: int|
        0 <= i < a.spec_epochs().len() && 0 <= j < a.spec_epochs()[i].operations@.len() implies {
        &&& (#[trigger] a.spec_epochs()[i].operations@[j]).epoch_id == a.spec_epochs()[i].id
        &&& a.spec_epochs()[i].operations@[j].asset_id == a.spec_id()
        &&& a.spec_epochs()[i].operations@[j].no == j
    } by {
        let e = a.spec_epochs()[i];
        assert(eps[i] == pairs[i]);
        assert(pairs[i].4[j] == e.operations@[j]);
        assert(e.operations.len() == e.operations@.len());
    }
}

/// Every known allocation is listed among the allocations of its own
/// outpoint, and the allocations listed for an outpoint are known ones
/// controlled by that outpoint.
pub proof fn law_allocations_listed_at_outpoint(s: Seq<Allocation>, outpoint: OutPoint)
    ensures
        forall|i: int|
            0 <= i < s.len() ==> #[trigger] allocations_at(s, s[i].outpoint).contains(s[i]),
        forall|i: int|
            0 <= i < allocations_at(s, outpoint).len() ==> (#[trigger] allocations_at(
                s,
                outpoint,
            )[i]).outpoint == outpoint && s.contains(allocations_at(s, outpoint)[i]),
{
    assert forall|i: int| 0 <= i < s.len() implies #[trigger] allocations_at(s, s[i].outpoint).contains(
        s[i],
    ) by {
        s.lemma_filter_contains(|a: Allocation| a.outpoint == s[i].outpoint, i);
    }
    assert forall|i: int| 0 <= i < allocations_at(s, outpoint).len() implies (#[trigger] allocations_at(
        s,
        outpoint,
    )[i]).outpoint == outpoint && s.contains(allocations_at(s, outpoint)[i]) by {
        let p = |a: Allocation| a.outpoint == outpoint;
        s.lemma_filter_pred(p, i);
        let x = s.filter(p)[i];
        assert(s.filter(p).contains(x));
        s.lemma_filter_contains_rev(p, x);
    }
}

/// After `InflationMap::insert` of an amount and indexes under an
/// outpoint, `get` of that outpoint finds them, and `get` of any other
/// outpoint finds what it found before the insertion.
pub proof fn law_inflation_insert_get(
    before: InflationMap,
    after: InflationMap,
    seal: OutPoint,
    value: u64,
    indexes: Seq<u16>,
    other: OutPoint,
)
    requires
        after.spec_map() == before.spec_map().insert(seal, (value, indexes)),
    ensures
        after.spec_map().contains_key(seal),
        after.spec_map()[seal] == (value, indexes),
        other != seal ==> after.spec_map().contains_key(other) == before.spec_map().contains_key(
            other,
        ),
        other != seal && before.spec_map().contains_key(other) ==> after.spec_map()[other]
            == before.spec_map()[other],
{
}

} // verus!
