//! Map from inflation-controlling outpoints to the amount they may issue and
//! the assignment indexes, kept ordered by outpoint.

use vstd::prelude::*;

use crate::ids::{lemma_outpoint_order, outpoint_lt, outpoint_precedes, OutPoint};

verus! {

/// One entry of an [`InflationMap`]: an outpoint controlling inflation, the
/// amount that may be issued when it is spent, and assignment indexes.
#[derive(Clone, PartialEq, Eq, Debug)]
pub struct InflationEntry {
    pub seal: OutPoint,
    pub value: u64,
    pub indexes: Vec<u16>,
}

/// The mathematical content of an entry.
pub open spec fn entry_content(e: InflationEntry) -> (OutPoint, u64, Seq<u16>) {
    (e.seal, e.value, e.indexes@)
}

/// Keys of an ordered content sequence ascend strictly.
pub open spec fn keys_ascending(s: Seq<(OutPoint, u64, Seq<u16>)>) -> bool {
    forall|i: int, j: int| 0 <= i < j < s.len() ==> outpoint_lt(#[trigger] s[i].0, #[trigger] s[j].0)
}

/// Map described by an ordered content sequence (each key taken once).
pub open spec fn content_map(s: Seq<(OutPoint, u64, Seq<u16>)>) -> Map<OutPoint, (u64, Seq<u16>)> {
    Map::new(
        |k: OutPoint| exists|i: int| 0 <= i < s.len() && #[trigger] s[i].0 == k,
        |k: OutPoint|
            {
                let i = choose|i: int| 0 <= i < s.len() && #[trigger] s[i].0 == k;
                (s[i].1, s[i].2)
            },
    )
}

/// An entry of an ascending sequence is what the map holds for its key.
pub proof fn lemma_content_map_at(s: Seq<(OutPoint, u64, Seq<u16>)>, i: int)
    requires
        keys_ascending(s),
        0 <= i < s.len(),
    ensures
        content_map(s).contains_key(s[i].0),
        content_map(s)[s[i].0] == (s[i].1, s[i].2),
{
    let k = s[i].0;
    assert(s[i].0 == k);
    let j = choose|j: int| 0 <= j < s.len() && #[trigger] s[j].0 == k;
    if j < i {
        assert(outpoint_lt(s[j].0, s[i].0));
        lemma_outpoint_order(k, k, k);
    } else if i < j {
        assert(outpoint_lt(s[i].0, s[j].0));
        lemma_outpoint_order(k, k, k);
    }
}

/// A key absent from every entry is absent from the map.
pub proof fn lemma_content_map_absent(s: Seq<(OutPoint, u64, Seq<u16>)>, k: OutPoint)
    requires
        forall|i: int| 0 <= i < s.len() ==> s[i].0 != k,
    ensures
        !content_map(s).contains_key(k),
{
}

/// An ascending sequence describes map `m` when each of its entries is what
/// `m` holds for the entry's key and each key of `m` occurs in it.
pub proof fn lemma_content_map_ext(
    t: Seq<(OutPoint, u64, Seq<u16>)>,
    m: Map<OutPoint, (u64, Seq<u16>)>,
)
    requires
        keys_ascending(t),
        forall|i: int| 0 <= i < t.len() ==> #[trigger] m.contains_key(t[i].0) && m[t[i].0] == (
            t[i].1,
            t[i].2,
        ),
        forall|k: OutPoint| #[trigger]
            m.contains_key(k) ==> exists|i: int| 0 <= i < t.len() && #[trigger] t[i].0 == k,
    ensures
        content_map(t) =~= m,
{
    assert forall|k: OutPoint| #[trigger] content_map(t).contains_key(k) <==> m.contains_key(k) by {
        if m.contains_key(k) {
            let i = choose|i: int| 0 <= i < t.len() && #[trigger] t[i].0 == k;
            lemma_content_map_at(t, i);
        }
        if content_map(t).contains_key(k) {
            let i = choose|i: int| 0 <= i < t.len() && #[trigger] t[i].0 == k;
            assert(m.contains_key(t[i].0));
        }
    }
    assert forall|k: OutPoint| #[trigger] content_map(t).contains_key(k) implies content_map(t)[k]
        == m[k] by {
        let i = choose|i: int| 0 <= i < t.len() && #[trigger] t[i].0 == k;
        lemma_content_map_at(t, i);
    }
}

/// Taking one more entry of an ascending sequence inserts that entry into
/// the described map.
pub proof fn lemma_content_map_take_step(s: Seq<(OutPoint, u64, Seq<u16>)>, j: int)
    requires
        keys_ascending(s),
        0 <= j < s.len(),
    ensures
        content_map(s.take(j + 1)) == content_map(s.take(j)).insert(s[j].0, (s[j].1, s[j].2)),
{
    let t = s.take(j + 1);
    let p = s.take(j);
    let m = content_map(p).insert(s[j].0, (s[j].1, s[j].2));
    assert(keys_ascending(t));
    assert(keys_ascending(p));
    assert forall|i: int| 0 <= i < t.len() implies #[trigger] m.contains_key(t[i].0) && m[t[i].0] == (
        t[i].1,
        t[i].2,
    ) by {
        if i < j {
            lemma_content_map_at(p, i);
            assert(outpoint_lt(s[i].0, s[j].0));
            lemma_outpoint_order(s[i].0, s[i].0, s[i].0);
        }
    }
    assert forall|k: OutPoint| #[trigger] m.contains_key(k) implies exists|i: int|
        0 <= i < t.len() && #[trigger] t[i].0 == k by {
        if k == s[j].0 {
            assert(t[j].0 == k);
        } else {
            let i = choose|i: int| 0 <= i < p.len() && #[trigger] p[i].0 == k;
            assert(t[i].0 == k);
        }
    }
    lemma_content_map_ext(t, m);
}

/// Ordered map from inflation-controlling outpoints to the issuable amount
/// and assignment indexes. Each outpoint occurs at most once and entries
/// are kept in ascending outpoint order.
#[derive(PartialEq, Eq, Debug)]
pub struct InflationMap {
    entries: Vec<InflationEntry>,
}

impl InflationMap {
    #[verifier::type_invariant]
    spec fn ascending(&self) -> bool {
        keys_ascending(self.entries@.map_values(|e: InflationEntry| entry_content(e)))
    }

    /// Entries in ascending outpoint order, as mathematical values.
    pub closed spec fn contents(&self) -> Seq<(OutPoint, u64, Seq<u16>)> {
        self.entries@.map_values(|e: InflationEntry| entry_content(e))
    }

    /// The map from outpoints to amount and indexes.
    pub open spec fn spec_map(&self) -> Map<OutPoint, (u64, Seq<u16>)> {
        content_map(self.contents())
    }

    /// Creates an empty map.
    pub fn new() -> (m: InflationMap)
        ensures
            m.contents() == Seq::<(OutPoint, u64, Seq<u16>)>::empty(),
            m.spec_map() == Map::<OutPoint, (u64, Seq<u16>)>::empty(),
    {
        let m = InflationMap { entries: Vec::new() };
        assert(m.contents() =~= Seq::<(OutPoint, u64, Seq<u16>)>::empty());
        assert(m.spec_map() =~= Map::<OutPoint, (u64, Seq<u16>)>::empty());
        m
    }

    /// Number of entries.
    pub fn len(&self) -> (n: usize)
        ensures
            n == self.contents().len(),
    {
        self.entries.len()
    }

    /// Entries in ascending outpoint order.
    pub fn entries(&self) -> (r: &Vec<InflationEntry>)
        ensures
            r@.map_values(|e: InflationEntry| entry_content(e)) == self.contents(),
            keys_ascending(self.contents()),
    {
        proof {
            use_type_invariant(self);
        }
        &self.entries
    }

    /// Looks up the entry for `seal`.
    pub fn get(&self, seal: &OutPoint) -> (r: Option<&InflationEntry>)
        ensures
            r.is_some() == self.spec_map().contains_key(*seal),
            r matches Some(e) ==> e.seal == *seal && (e.value, e.indexes@) == self.spec_map()[*seal],
    {
        proof {
            use_type_invariant(self);
        }
        let ghost s = self.contents();
        let mut i: usize = 0;
        while i < self.entries.len()
            invariant
                s == self.contents(),
                keys_ascending(s),
                i <= self.entries.len(),
                forall|j: int| 0 <= j < i ==> s[j].0 != *seal,
            decreases self.entries.len() - i,
        {
            if self.entries[i].seal == *seal {
                proof {
                    assert(s[i as int] == entry_content(self.entries@[i as int]));
                    lemma_content_map_at(s, i as int);
                }
                return Some(&self.entries[i]);
            }
            assert(s[i as int] == entry_content(self.entries@[i as int]));
            i = i + 1;
        }
        proof {
            lemma_content_map_absent(s, *seal);
        }
        None
    }

    /// Inserts `value` and `indexes` under `seal`, replacing an earlier entry
    /// for the same outpoint and keeping entries in ascending order.
    pub fn insert(&mut self, seal: OutPoint, value: u64, indexes: Vec<u16>)
        ensures
            keys_ascending(final(self).contents()),
            final(self).spec_map() == old(self).spec_map().insert(seal, (value, indexes@)),
    {
        proof {
            use_type_invariant(&*self);
        }
        let ghost s = self.contents();
        let mut entries: Vec<InflationEntry> = Vec::new();
        std::mem::swap(&mut entries, &mut self.entries);
        let mut i: usize = 0;
        while i < entries.len() && outpoint_precedes(&entries[i].seal, &seal)
            invariant
                s == entries@.map_values(|e: InflationEntry| entry_content(e)),
                keys_ascending(s),
                i <= entries.len(),
                forall|j: int| 0 <= j < i ==> outpoint_lt(#[trigger] s[j].0, seal),
            decreases entries.len() - i,
        {
            assert(s[i as int] == entry_content(entries@[i as int]));
            i = i + 1;
        }
        let ghost m = s.len();
        // every entry from position `i` on has a key not below `seal`
        assert forall|j: int| i <= j < s.len() implies !outpoint_lt(#[trigger] s[j].0, seal) by {
            assert(s[i as int] == entry_content(entries@[i as int]));
            assert(!outpoint_lt(s[i as int].0, seal));
            if j > i {
                assert(outpoint_lt(s[i as int].0, s[j].0));
                lemma_outpoint_order(seal, s[i as int].0, s[j].0);
                lemma_outpoint_order(s[i as int].0, s[j].0, seal);
            }
        }
        let ghost old_map = content_map(s);
        let ghost target = old_map.insert(seal, (value, indexes@));
        let entry = InflationEntry { seal, value, indexes };
        if i < entries.len() && entries[i].seal == seal {
            proof {
                assert(s[i as int] == entry_content(entries@[i as int]));
            }
            entries.set(i, entry);
            proof {
                let t = entries@.map_values(|e: InflationEntry| entry_content(e));
                assert(t =~= s.update(i as int, (seal, value, indexes@)));
                assert forall|a: int, b: int| 0 <= a < b < t.len() implies outpoint_lt(
                    #[trigger] t[a].0,
                    #[trigger] t[b].0,
                ) by {
                    assert(outpoint_lt(s[a].0, s[b].0));
                }
                assert forall|j: int| 0 <= j < t.len() implies #[trigger] target.contains_key(t[j].0)
                    && target[t[j].0] == (t[j].1, t[j].2) by {
                    if j != i {
                        lemma_content_map_at(s, j);
                        if s[j].0 == seal {
                            lemma_content_map_at(s, i as int);
                            if j < i {
                                assert(outpoint_lt(s[j].0, s[i as int].0));
                            } else {
                                assert(outpoint_lt(s[i as int].0, s[j].0));
                            }
                            lemma_outpoint_order(seal, seal, seal);
                        }
                    }
                }
                assert forall|k: OutPoint| #[trigger] target.contains_key(k) implies exists|j: int|
                    0 <= j < t.len() && #[trigger] t[j].0 == k by {
                    if k == seal {
                        assert(t[i as int].0 == k);
                    } else {
                        let j = choose|j: int| 0 <= j < s.len() && #[trigger] s[j].0 == k;
                        assert(t[j].0 == k);
                    }
                }
                lemma_content_map_ext(t, target);
            }
        } else {
            proof {
                if i < s.len() {
                    assert(s[i as int] == entry_content(entries@[i as int]));
                }
            }
            entries.insert(i, entry);
            proof {
                let t = entries@.map_values(|e: InflationEntry| entry_content(e));
                assert(t =~= s.insert(i as int, (seal, value, indexes@)));
                assert(forall|j: int| i < j < s.len() ==> outpoint_lt(seal, #[trigger] s[j].0)) by {
                    assert forall|j: int| i < j < s.len() implies outpoint_lt(seal, #[trigger] s[j].0)
                        by {
                        assert(outpoint_lt(s[i as int].0, s[j].0));
                        lemma_outpoint_order(seal, s[i as int].0, s[j].0);
                    }
                }
                assert(i < s.len() ==> outpoint_lt(seal, s[i as int].0)) by {
                    if i < s.len() {
                        lemma_outpoint_order(seal, s[i as int].0, seal);
                    }
                }
                assert forall|a: int, b: int| 0 <= a < b < t.len() implies outpoint_lt(
                    #[trigger] t[a].0,
                    #[trigger] t[b].0,
                ) by {
                    if b < i {
                        assert(outpoint_lt(s[a].0, s[b].0));
                    } else if b == i {
                        assert(outpoint_lt(s[a].0, seal));
                    } else if a < i {
                        assert(outpoint_lt(s[a].0, seal));
                        assert(outpoint_lt(seal, s[b - 1].0));
                        lemma_outpoint_order(s[a].0, seal, s[b - 1].0);
                    } else if a == i {
                        assert(outpoint_lt(seal, s[b - 1].0));
                    } else {
                        assert(outpoint_lt(s[a - 1].0, s[b - 1].0));
                    }
                }
                assert forall|j: int| 0 <= j < t.len() implies #[trigger] target.contains_key(t[j].0)
                    && target[t[j].0] == (t[j].1, t[j].2) by {
                    if j < i {
                        lemma_content_map_at(s, j);
                        assert(outpoint_lt(s[j].0, seal));
                        lemma_outpoint_order(seal, seal, seal);
                    } else if j > i {
                        lemma_content_map_at(s, j - 1);
                        assert(outpoint_lt(seal, s[j - 1].0));
                        lemma_outpoint_order(seal, seal, seal);
                    }
                }
                assert forall|k: OutPoint| #[trigger] target.contains_key(k) implies exists|j: int|
                    0 <= j < t.len() && #[trigger] t[j].0 == k by {
                    if k == seal {
                        assert(t[i as int].0 == k);
                    } else {
                        let j = choose|j: int| 0 <= j < s.len() && #[trigger] s[j].0 == k;
                        if j < i {
                            assert(t[j].0 == k);
                        } else {
                            assert(t[j + 1].0 == k);
                        }
                    }
                }
                lemma_content_map_ext(t, target);
            }
        }
        self.entries = entries;
    }
}

/// Copies a sequence of assignment indexes.
pub(crate) fn copy_indexes(v: &Vec<u16>) -> (r: Vec<u16>)
    ensures
        r@ == v@,
{
    let mut r: Vec<u16> = Vec::new();
    let mut i: usize = 0;
    while i < v.len()
        invariant
            i <= v.len(),
            r@ == v@.take(i as int),
        decreases v.len() - i,
    {
        r.push(v[i]);
        i = i + 1;
        assert(r@ =~= v@.take(i as int));
    }
    assert(v@.take(v.len() as int) =~= v@);
    r
}

impl Clone for InflationMap {
    /// Copies the map, entry by entry.
    fn clone(&self) -> (r: Self)
        ensures
            r.contents() == self.contents(),
    {
        proof {
            use_type_invariant(self);
        }
        let ghost s = self.contents();
        let mut entries: Vec<InflationEntry> = Vec::new();
        let mut i: usize = 0;
        while i < self.entries.len()
            invariant
                s == self.contents(),
                keys_ascending(s),
                i <= self.entries.len(),
                entries@.map_values(|e: InflationEntry| entry_content(e)) == s.take(i as int),
            decreases self.entries.len() - i,
        {
            let e = &self.entries[i];
            let indexes = copy_indexes(&e.indexes);
            let ghost before = entries@;
            let entry = InflationEntry { seal: e.seal, value: e.value, indexes };
            entries.push(entry);
            proof {
                assert(before.map_values(|e: InflationEntry| entry_content(e)).len() == before.len());
                assert(before.len() == i);
                assert(entries@ == before.push(entry));
                assert(s[i as int] == entry_content(self.entries@[i as int]));
                let got = entries@.map_values(|e: InflationEntry| entry_content(e));
                let want = s.take(i + 1);
                assert forall|k: int| 0 <= k < i + 1 implies got[k] == want[k] by {
                    if k < i {
                        assert(entries@[k] == before[k]);
                        assert(before.map_values(|e: InflationEntry| entry_content(e))[k] == s.take(
                            i as int,
                        )[k]);
                    }
                }
                assert(got =~= want);
            }
            i = i + 1;
        }
        assert(s.take(s.len() as int) =~= s);
        InflationMap { entries }
    }
}

} // verus!
