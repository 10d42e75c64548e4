//! A sparse cell store: the world map's backing container. An association
//! vector with unique keys, modelled as a `Map` from cell coordinate to
//! block classification.

use vstd::prelude::*;
use crate::vec3::Vec3;
use crate::turtle_state::Block;

verus! {

/// The map denoted by an entry sequence: later entries win.
pub open spec fn map_of(s: Seq<(Vec3, Block)>) -> Map<Vec3, Block>
    decreases s.len(),
{
    if s.len() == 0 {
        Map::empty()
    } else {
        map_of(s.drop_last()).insert(s.last().0, s.last().1)
    }
}

/// Sparse map from cell coordinate to block classification, kept with one
/// entry per coordinate.
pub struct CellGrid {
    cells: Vec<(Vec3, Block)>,
}

impl View for CellGrid {
    type V = Map<Vec3, Block>;

    closed spec fn view(&self) -> Map<Vec3, Block> {
        map_of(self.cells@)
    }
}

/// No coordinate occurs twice in an entry sequence.
pub open spec fn unique_keys(s: Seq<(Vec3, Block)>) -> bool {
    forall|i: int, j: int| 0 <= i < j < s.len() ==> (#[trigger] s[i]).0 != (#[trigger] s[j]).0
}

/// Does some entry hold key `k`?
pub open spec fn has_key(s: Seq<(Vec3, Block)>, k: Vec3) -> bool {
    exists|i: int| 0 <= i < s.len() && (#[trigger] s[i]).0 == k
}

/// A key is in the map of an entry sequence exactly when some entry holds
/// it, and then (with unique keys) the map gives that entry's value.
pub proof fn lemma_map_of_entries(s: Seq<(Vec3, Block)>)
    ensures
        forall|k: Vec3| #[trigger] map_of(s).contains_key(k) <==> has_key(s, k),
        unique_keys(s) ==> forall|i: int| 0 <= i < s.len()
            ==> map_of(s).contains_key((#[trigger] s[i]).0) && map_of(s)[s[i].0] == s[i].1,
    decreases s.len(),
{
    if s.len() > 0 {
        let s0 = s.drop_last();
        lemma_map_of_entries(s0);
        assert forall|k: Vec3| #[trigger] map_of(s).contains_key(k) implies has_key(s, k) by {
            if k == s.last().0 {
                assert((s[s.len() - 1]).0 == k);
            } else {
                assert(map_of(s0).contains_key(k));
                assert(has_key(s0, k));
                let i = choose|i: int| 0 <= i < s0.len() && (#[trigger] s0[i]).0 == k;
                assert(s[i] == s0[i]);
                assert((s[i]).0 == k);
            }
        }
        assert forall|k: Vec3| has_key(s, k) implies map_of(s).contains_key(k) by {
            let i = choose|i: int| 0 <= i < s.len() && (#[trigger] s[i]).0 == k;
            if i < s.len() - 1 {
                assert((s0[i]).0 == k);
                assert(has_key(s0, k));
                assert(map_of(s0).contains_key(k));
            }
        }
        if unique_keys(s) {
            assert(unique_keys(s0));
            assert forall|i: int| 0 <= i < s.len()
                implies map_of(s).contains_key((#[trigger] s[i]).0) && map_of(s)[s[i].0] == s[i].1 by {
                if i < s.len() - 1 {
                    assert((s0[i]).0 == s[i].0);
                    assert(s[i].0 != s.last().0);
                }
            }
        }
    }
}

/// The number of distinct keys equals the number of entries when keys are
/// unique.
pub proof fn lemma_map_of_len(s: Seq<(Vec3, Block)>)
    requires
        unique_keys(s),
    ensures
        map_of(s).dom().finite(),
        map_of(s).dom().len() == s.len(),
    decreases s.len(),
{
    if s.len() == 0 {
        assert(map_of(s).dom() =~= Set::<Vec3>::empty());
    } else {
        assert(unique_keys(s.drop_last()));
        lemma_map_of_len(s.drop_last());
        lemma_map_of_entries(s.drop_last());
        assert(!map_of(s.drop_last()).contains_key(s.last().0));
        assert(map_of(s).dom() =~= map_of(s.drop_last()).dom().insert(s.last().0));
    }
}

impl CellGrid {
    /// One entry per coordinate.
    pub closed spec fn wf(self) -> bool {
        unique_keys(self.cells@)
    }

    /// The stored entries, in insertion order.
    pub closed spec fn entries(self) -> Seq<(Vec3, Block)> {
        self.cells@
    }

    /// With unique keys, each entry is what the map holds for its key.
    pub proof fn lemma_entries(self)
        requires
            self.wf(),
        ensures
            unique_keys(self.entries()),
            forall|k: Vec3| #[trigger] self@.contains_key(k) <==> has_key(self.entries(), k),
            forall|i: int| 0 <= i < self.entries().len()
                ==> self@.contains_key((#[trigger] self.entries()[i]).0)
                    && self@[self.entries()[i].0] == self.entries()[i].1,
    {
        lemma_map_of_entries(self.cells@);
    }

    pub fn new() -> (r: Self)
        ensures
            r.wf(),
            r@ == Map::<Vec3, Block>::empty(),
            r.entries() == Seq::<(Vec3, Block)>::empty(),
    {
        let r = CellGrid { cells: Vec::new() };
        proof {
            assert(r.cells@ =~= Seq::<(Vec3, Block)>::empty());
        }
        r
    }

    /// How many cells have a recorded classification.
    pub fn len(&self) -> (r: usize)
        requires
            self.wf(),
        ensures
            r == self.entries().len(),
            r == self@.dom().len(),
    {
        proof {
            lemma_map_of_len(self.cells@);
        }
        self.cells.len()
    }

    /// The entry at a position, for walking the store.
    pub fn entry(&self, i: usize) -> (r: (Vec3, Block))
        requires
            i < self.entries().len(),
        ensures
            r == self.entries()[i as int],
    {
        self.cells[i]
    }

    /// The recorded classification of a cell, if any.
    pub fn lookup(&self, k: &Vec3) -> (r: Option<Block>)
        requires
            self.wf(),
        ensures
            match r {
                Some(b) => self@.contains_key(*k) && self@[*k] == b,
                None => !self@.contains_key(*k),
            },
    {
        proof {
            lemma_map_of_entries(self.cells@);
        }
        let mut i: usize = 0;
        while i < self.cells.len()
            invariant
                self.wf(),
                i <= self.cells@.len(),
                forall|j: int| 0 <= j < i ==> (#[trigger] self.cells@[j]).0 != *k,
            decreases self.cells@.len() - i,
        {
            let (ck, cb) = self.cells[i];
            if ck.eq_v(k) {
                proof {
                    lemma_map_of_entries(self.cells@);
                    assert((self.cells@[i as int]).0 == *k);
                    assert(map_of(self.cells@)[(self.cells@[i as int]).0] == (self.cells@[i as int]).1);
                }
                return Some(cb);
            }
            i = i + 1;
        }
        None
    }

    /// Record a cell's classification, returning what it replaced.
    pub fn insert(&mut self, k: Vec3, b: Block) -> (prev: Option<Block>)
        requires
            old(self).wf(),
        ensures
            final(self).wf(),
            final(self)@ == old(self)@.insert(k, b),
            match prev {
                Some(pb) => old(self)@.contains_key(k) && old(self)@[k] == pb,
                None => !old(self)@.contains_key(k),
            },
            (prev is None) ==> final(self).entries() == old(self).entries().push((k, b)),
            final(self).entries().len() == if old(self)@.contains_key(k) {
                old(self).entries().len()
            } else {
                old(self).entries().len() + 1
            },
    {
        proof {
            lemma_map_of_entries(self.cells@);
        }
        let mut i: usize = 0;
        while i < self.cells.len()
            invariant
                old(self).wf(),
                self == old(self),
                i <= self.cells@.len(),
                forall|j: int| 0 <= j < i ==> (#[trigger] self.cells@[j]).0 != k,
            decreases self.cells@.len() - i,
        {
            let (ck, cb) = self.cells[i];
            if ck.eq_v(&k) {
                proof {
                    lemma_map_of_entries(self.cells@);
                    assert((self.cells@[i as int]).0 == k);
                    assert(map_of(self.cells@)[(self.cells@[i as int]).0] == (self.cells@[i as int]).1);
                    lemma_map_of_len(self.cells@);
                }
                self.cells.set(i, (k, b));
                proof {
                    lemma_replace_map(old(self).cells@, i as int, k, b);
                }
                return Some(cb);
            }
            i = i + 1;
        }
        self.cells.push((k, b));
        proof {
            assert(self.cells@.drop_last() =~= old(self).cells@);
        }
        None
    }
}

/// Replacing the value at the unique position holding key `k` makes the map
/// of the entries the map with `k` re-bound.
proof fn lemma_replace_map(s: Seq<(Vec3, Block)>, i: int, k: Vec3, b: Block)
    requires
        unique_keys(s),
        0 <= i < s.len(),
        s[i].0 == k,
    ensures
        unique_keys(s.update(i, (k, b))),
        map_of(s.update(i, (k, b))) == map_of(s).insert(k, b),
    decreases s.len(),
{
    let s2 = s.update(i, (k, b));
    assert forall|x: int, y: int| 0 <= x < y < s2.len()
        implies (#[trigger] s2[x]).0 != (#[trigger] s2[y]).0 by {
        assert(s[x].0 != s[y].0);
    }
    if s.len() > 0 {
        if i == s.len() - 1 {
            assert(s2.drop_last() =~= s.drop_last());
            assert(map_of(s2) =~= map_of(s).insert(k, b));
        } else {
            assert(unique_keys(s.drop_last()));
            assert(s2.drop_last() =~= s.drop_last().update(i, (k, b)));
            lemma_replace_map(s.drop_last(), i, k, b);
            assert(s.last().0 != k);
            assert(map_of(s2) =~= map_of(s).insert(k, b));
        }
    }
}

} // verus!
