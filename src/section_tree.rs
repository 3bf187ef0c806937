//! The section tree: the signed SAP known for each prefix.
use vstd::prelude::*;
use crate::sap::{SapView, SignedSap};
use crate::xor_space::{is_extension_of, prefix_matches, Prefix, XorName};

verus! {

/// `a` is a strict leading part of `b`.
pub open spec fn is_strict_ancestor(a: Seq<bool>, b: Seq<bool>) -> bool {
    is_extension_of(b, a) && a.len() < b.len()
}

/// An entry under prefix `q` is dropped when a SAP for `p` comes in: `q` is a
/// strict ancestor of `p` and not the prefix `keep`.
pub open spec fn dropped_by(q: Seq<bool>, p: Seq<bool>, keep: Seq<bool>) -> bool {
    is_strict_ancestor(q, p) && q != keep
}

/// The prefixes dropped when a SAP for `p` comes in.
pub open spec fn dropped_set(p: Seq<bool>, keep: Seq<bool>) -> Set<Seq<bool>> {
    Set::new(|q: Seq<bool>| dropped_by(q, p, keep))
}

/// A map of SAPs takes a SAP for `p` of generation `g`: nothing lies strictly
/// under `p`, and the SAP for `p`, if any, is of an older generation.
pub open spec fn map_accepts(m: Map<Seq<bool>, SapView>, p: Seq<bool>, g: u64) -> bool {
    &&& !exists|q: Seq<bool>| #[trigger] m.dom().contains(q) && is_strict_ancestor(p, q)
    &&& m.dom().contains(p) ==> m[p].generation < g
}

/// The map of SAPs after offering `s`, keeping the entry under `keep`.
pub open spec fn tree_after(m: Map<Seq<bool>, SapView>, s: SapView, keep: Seq<bool>) -> Map<Seq<bool>, SapView> {
    if map_accepts(m, s.prefix, s.generation) {
        m.remove_keys(dropped_set(s.prefix, keep)).insert(s.prefix, s)
    } else {
        m
    }
}

/// Two SAPs may be offered in either order: they are not different SAPs of
/// one prefix and generation, and neither's prefix lies strictly over the
/// other's while being `keep`.
pub open spec fn commute_ok(s1: SapView, s2: SapView, keep: Seq<bool>) -> bool {
    &&& s1.prefix != s2.prefix || s1.generation != s2.generation || s1 == s2
    &&& !(is_strict_ancestor(s1.prefix, s2.prefix) && s1.prefix == keep)
    &&& !(is_strict_ancestor(s2.prefix, s1.prefix) && s2.prefix == keep)
}

/// The map of SAPs after offering each of `ss` in turn.
pub open spec fn tree_after_all(m: Map<Seq<bool>, SapView>, ss: Seq<SapView>, keep: Seq<bool>) -> Map<Seq<bool>, SapView>
    decreases ss.len(),
{
    if ss.len() == 0 {
        m
    } else {
        tree_after(tree_after_all(m, ss.drop_last(), keep), ss.last(), keep)
    }
}

/// Offering `a` then `b` is offering `a + b`.
pub proof fn lemma_tree_after_all_append(m: Map<Seq<bool>, SapView>, a: Seq<SapView>, b: Seq<SapView>, keep: Seq<bool>)
    ensures
        tree_after_all(m, a + b, keep) == tree_after_all(tree_after_all(m, a, keep), b, keep),
    decreases b.len(),
{
    if b.len() == 0 {
        assert(a + b =~= a);
    } else {
        assert((a + b).drop_last() =~= a + b.drop_last());
        assert((a + b).last() == b.last());
        lemma_tree_after_all_append(m, a, b.drop_last(), keep);
    }
}

/// In any sequence of SAP offers, swapping two neighbours that may be
/// offered in either order leaves the final tree as it was; as such swaps
/// reach every order, every order of such offers gives one tree.
pub proof fn lemma_tree_updates_swap(m: Map<Seq<bool>, SapView>, ss: Seq<SapView>, i: int, keep: Seq<bool>)
    requires
        0 <= i,
        i + 1 < ss.len(),
        commute_ok(ss[i], ss[i + 1], keep),
    ensures
        tree_after_all(m, ss, keep) == tree_after_all(m, ss.update(i, ss[i + 1]).update(i + 1, ss[i]), keep),
{
    let pre = ss.subrange(0, i);
    let post = ss.subrange(i + 2, ss.len() as int);
    let x = ss[i];
    let y = ss[i + 1];
    let swapped = ss.update(i, y).update(i + 1, x);
    assert(ss =~= pre + seq![x, y] + post);
    assert(swapped =~= pre + seq![y, x] + post);
    lemma_tree_after_all_append(m, pre + seq![x, y], post, keep);
    lemma_tree_after_all_append(m, pre + seq![y, x], post, keep);
    lemma_tree_after_all_append(m, pre, seq![x, y], keep);
    lemma_tree_after_all_append(m, pre, seq![y, x], keep);
    let m0 = tree_after_all(m, pre, keep);
    assert(seq![x, y].drop_last() =~= seq![x]);
    assert(seq![y, x].drop_last() =~= seq![y]);
    assert(seq![x].drop_last() =~= Seq::<SapView>::empty());
    assert(seq![y].drop_last() =~= Seq::<SapView>::empty());
    assert(tree_after_all(m0, Seq::<SapView>::empty(), keep) == m0);
    assert(tree_after_all(m0, seq![x], keep) == tree_after(m0, x, keep));
    assert(tree_after_all(m0, seq![y], keep) == tree_after(m0, y, keep));
    assert(seq![x, y].last() == y);
    assert(seq![y, x].last() == x);
    assert(tree_after_all(m0, seq![x, y], keep) == tree_after(tree_after(m0, x, keep), y, keep));
    assert(tree_after_all(m0, seq![y, x], keep) == tree_after(tree_after(m0, y, keep), x, keep));
    lemma_tree_updates_commute(m0, x, y, keep);
}

/// Leading parts of leading parts are leading parts.
pub proof fn lemma_extension_transitive(a: Seq<bool>, b: Seq<bool>, c: Seq<bool>)
    requires
        is_extension_of(b, a),
        is_extension_of(c, b),
    ensures
        is_extension_of(c, a),
{
    assert(c.subrange(0, a.len() as int) =~= b.subrange(0, a.len() as int));
}

/// Offering two SAPs to the tree in either order gives the same tree, unless
/// they are different SAPs with one prefix and one generation, or one lies
/// strictly under the other and the upper one is the kept prefix.
pub proof fn lemma_tree_updates_commute(m: Map<Seq<bool>, SapView>, s1: SapView, s2: SapView, keep: Seq<bool>)
    requires
        commute_ok(s1, s2, keep),
    ensures
        tree_after(tree_after(m, s1, keep), s2, keep) == tree_after(tree_after(m, s2, keep), s1, keep),
{
    let pa = s1.prefix;
    let pb = s2.prefix;
    if s1 == s2 {
        return;
    }
    if is_strict_ancestor(pb, pa) {
        lemma_tree_updates_commute_ordered(m, s2, s1, keep);
    } else if is_strict_ancestor(pa, pb) {
        lemma_tree_updates_commute_ordered(m, s1, s2, keep);
    } else if pa == pb {
        if s1.generation < s2.generation {
            lemma_tree_updates_commute_same_prefix(m, s1, s2, keep);
        } else {
            lemma_tree_updates_commute_same_prefix(m, s2, s1, keep);
        }
    } else {
        lemma_tree_updates_commute_apart(m, s1, s2, keep);
    }
}

proof fn lemma_tree_updates_commute_ordered(m: Map<Seq<bool>, SapView>, s1: SapView, s2: SapView, keep: Seq<bool>)
    requires
        is_strict_ancestor(s1.prefix, s2.prefix),
        s1.prefix != keep,
    ensures
        tree_after(tree_after(m, s1, keep), s2, keep) == tree_after(tree_after(m, s2, keep), s1, keep),
{
    let pa = s1.prefix;
    let pb = s2.prefix;
    let m2 = tree_after(m, s2, keep);
    // once s2 is in, s1 is refused: pb lies strictly under pa
    if map_accepts(m, pb, s2.generation) {
        assert(m2.dom().contains(pb));
        assert(!map_accepts(m2, pa, s1.generation));
    }
    let m1 = tree_after(m, s1, keep);
    if map_accepts(m, pa, s1.generation) {
        // s2 meets the same conditions after s1 as before it
        assert forall|q: Seq<bool>| #[trigger] m1.dom().contains(q) && is_strict_ancestor(pb, q)
            implies m.dom().contains(q) && is_strict_ancestor(pb, q) by {
            if q == pa {
                assert(pa.len() < pb.len());
            }
        }
        assert forall|q: Seq<bool>| #[trigger] m.dom().contains(q) && is_strict_ancestor(pb, q)
            implies m1.dom().contains(q) by {
            if dropped_by(q, pa, keep) {
                lemma_extension_transitive(pb, q, pa);
                assert(pa.len() < pb.len());
            }
            assert(q != pa);
        }
        assert(!dropped_by(pb, pa, keep));
        assert(m1.dom().contains(pb) == m.dom().contains(pb));
        if m.dom().contains(pb) {
            assert(m1[pb] == m[pb]);
        }
        assert(map_accepts(m1, pb, s2.generation) == map_accepts(m, pb, s2.generation));
        if map_accepts(m, pb, s2.generation) {
            assert forall|q: Seq<bool>| dropped_by(q, pa, keep) implies #[trigger] dropped_by(q, pb, keep) by {
                lemma_extension_transitive(q, pa, pb);
            }
            assert(dropped_by(pa, pb, keep));
            assert(tree_after(m1, s2, keep) =~= m2);
        }
    }
}

proof fn lemma_tree_updates_commute_same_prefix(m: Map<Seq<bool>, SapView>, s1: SapView, s2: SapView, keep: Seq<bool>)
    requires
        s1.prefix == s2.prefix,
        s1.generation < s2.generation,
    ensures
        tree_after(tree_after(m, s1, keep), s2, keep) == tree_after(tree_after(m, s2, keep), s1, keep),
{
    let p = s1.prefix;
    let m1 = tree_after(m, s1, keep);
    let m2 = tree_after(m, s2, keep);
    if map_accepts(m, p, s2.generation) {
        assert(m2.dom().contains(p) && m2[p] == s2);
    }
    assert(!map_accepts(m2, p, s1.generation) || m2 == m);
    if map_accepts(m, p, s1.generation) {
        assert forall|q: Seq<bool>| #[trigger] m1.dom().contains(q) && is_strict_ancestor(p, q)
            implies m.dom().contains(q) by {}
        assert(map_accepts(m1, p, s2.generation));
        assert(tree_after(m1, s2, keep) =~= m2);
    }
}

proof fn lemma_tree_updates_commute_apart(m: Map<Seq<bool>, SapView>, s1: SapView, s2: SapView, keep: Seq<bool>)
    requires
        s1.prefix != s2.prefix,
        !is_strict_ancestor(s1.prefix, s2.prefix),
        !is_strict_ancestor(s2.prefix, s1.prefix),
    ensures
        tree_after(tree_after(m, s1, keep), s2, keep) == tree_after(tree_after(m, s2, keep), s1, keep),
{
    let pa = s1.prefix;
    let pb = s2.prefix;
    lemma_apart_keeps_acceptance(m, s1, s2, keep);
    lemma_apart_keeps_acceptance(m, s2, s1, keep);
    let m1 = tree_after(m, s1, keep);
    let m2 = tree_after(m, s2, keep);
    if map_accepts(m, pa, s1.generation) && map_accepts(m, pb, s2.generation) {
        assert(!dropped_by(pa, pb, keep));
        assert(!dropped_by(pb, pa, keep));
        assert(tree_after(m1, s2, keep) =~= tree_after(m2, s1, keep));
    }
}

/// Taking a SAP for one prefix leaves unchanged whether a SAP for a prefix
/// that neither lies under nor over it is taken.
proof fn lemma_apart_keeps_acceptance(m: Map<Seq<bool>, SapView>, s1: SapView, s2: SapView, keep: Seq<bool>)
    requires
        s1.prefix != s2.prefix,
        !is_strict_ancestor(s1.prefix, s2.prefix),
        !is_strict_ancestor(s2.prefix, s1.prefix),
    ensures
        map_accepts(tree_after(m, s1, keep), s2.prefix, s2.generation) == map_accepts(m, s2.prefix, s2.generation),
{
    let pa = s1.prefix;
    let pb = s2.prefix;
    let m1 = tree_after(m, s1, keep);
    if map_accepts(m, pa, s1.generation) {
        assert forall|q: Seq<bool>| #[trigger] m1.dom().contains(q) && is_strict_ancestor(pb, q)
            implies m.dom().contains(q) && is_strict_ancestor(pb, q) by {}
        assert forall|q: Seq<bool>| #[trigger] m.dom().contains(q) && is_strict_ancestor(pb, q)
            implies m1.dom().contains(q) by {
            if dropped_by(q, pa, keep) {
                lemma_extension_transitive(pb, q, pa);
                if pb.len() == pa.len() {
                    assert(pa.subrange(0, pb.len() as int) =~= pa);
                }
            }
        }
        assert(!dropped_by(pb, pa, keep));
        assert(m1.dom().contains(pb) == m.dom().contains(pb));
        if m.dom().contains(pb) {
            assert(m1[pb] == m[pb]);
        }
    }
}

/// The SAPs known to this node, at most one per prefix.
#[derive(Debug)]
pub struct SectionTree {
    pub entries: Vec<SignedSap>,
}

impl SectionTree {
    /// Some entry has prefix `q`.
    pub open spec fn has_prefix(&self, q: Seq<bool>) -> bool {
        exists|i: int| 0 <= i < self.entries@.len() && #[trigger] self.entries@[i].sap.prefix@ == q
    }

    /// Position of the entry with prefix `q`.
    pub open spec fn pos(&self, q: Seq<bool>) -> int {
        choose|i: int| 0 <= i < self.entries@.len() && #[trigger] self.entries@[i].sap.prefix@ == q
    }

    /// The tree as a map from prefix to signed SAP.
    pub open spec fn view(&self) -> Map<Seq<bool>, SapView> {
        Map::new(|q: Seq<bool>| self.has_prefix(q), |q: Seq<bool>| self.entries@[self.pos(q)]@)
    }

    /// Well-formed: prefixes are unique and every SAP is well-formed.
    pub open spec fn wf(&self) -> bool {
        &&& forall|i: int| 0 <= i < self.entries@.len() ==> (#[trigger] self.entries@[i]).sap.wf()
        &&& forall|i: int, j: int|
            0 <= i < self.entries@.len() && 0 <= j < self.entries@.len() && i != j
                ==> (#[trigger] self.entries@[i]).sap.prefix@ != (#[trigger] self.entries@[j]).sap.prefix@
    }

    /// A SAP for `p` of generation `g` would change the tree: no entry lies
    /// strictly under `p`, and the entry for `p`, if any, is of an older generation.
    pub open spec fn would_accept(&self, p: Seq<bool>, g: u64) -> bool {
        &&& !exists|i: int| 0 <= i < self.entries@.len() && is_strict_ancestor(p, #[trigger] self.entries@[i].sap.prefix@)
        &&& self.has_prefix(p) ==> self.entries@[self.pos(p)].sap.generation < g
    }

    /// An entry matches `name` and no matching entry has a longer prefix.
    pub open spec fn is_closest(&self, i: int, name: Seq<u8>) -> bool {
        &&& 0 <= i < self.entries@.len()
        &&& prefix_matches(self.entries@[i].sap.prefix@, name)
        &&& forall|j: int| 0 <= j < self.entries@.len() && prefix_matches(#[trigger] self.entries@[j].sap.prefix@, name)
            ==> self.entries@[j].sap.prefix@.len() <= self.entries@[i].sap.prefix@.len()
    }

    proof fn lemma_pos(&self, i: int)
        requires
            self.wf(),
            0 <= i < self.entries@.len(),
        ensures
            self.has_prefix(self.entries@[i].sap.prefix@),
            self.pos(self.entries@[i].sap.prefix@) == i,
    {
        let q = self.entries@[i].sap.prefix@;
        assert(self.entries@[i].sap.prefix@ == q);
        let k = self.pos(q);
        if k != i {
            assert(self.entries@[k].sap.prefix@ != self.entries@[i].sap.prefix@);
        }
    }

    /// The entry at position `i` is the one the map gives for its prefix.
    pub proof fn lemma_pos_pub(&self, i: int)
        requires
            self.wf(),
            0 <= i < self.entries@.len(),
        ensures
            self.view().dom().contains(self.entries@[i].sap.prefix@),
            self.view()[self.entries@[i].sap.prefix@] == self.entries@[i]@,
    {
        self.lemma_pos(i);
    }

    /// `would_accept` is `map_accepts` on the tree's map.
    pub proof fn lemma_would_accept_map(&self, p: Seq<bool>, g: u64)
        requires
            self.wf(),
        ensures
            self.would_accept(p, g) == map_accepts(self.view(), p, g),
    {
        if exists|i: int| 0 <= i < self.entries@.len() && is_strict_ancestor(p, #[trigger] self.entries@[i].sap.prefix@) {
            let i = choose|i: int| 0 <= i < self.entries@.len() && is_strict_ancestor(p, #[trigger] self.entries@[i].sap.prefix@);
            self.lemma_pos(i);
            assert(self.view().dom().contains(self.entries@[i].sap.prefix@));
        }
        if exists|q: Seq<bool>| #[trigger] self.view().dom().contains(q) && is_strict_ancestor(p, q) {
            let q = choose|q: Seq<bool>| #[trigger] self.view().dom().contains(q) && is_strict_ancestor(p, q);
            let i = self.pos(q);
            assert(is_strict_ancestor(p, self.entries@[i].sap.prefix@));
        }
    }

    /// Whether the tree is well-formed.
    pub fn check_wf(&self) -> (r: bool)
        ensures
            r == self.wf(),
    {
        let mut i: usize = 0;
        while i < self.entries.len()
            invariant
                i <= self.entries@.len(),
                forall|k: int| 0 <= k < i ==> (#[trigger] self.entries@[k]).sap.wf(),
                forall|a: int, b: int| 0 <= a < i && 0 <= b < self.entries@.len() && a != b
                    ==> (#[trigger] self.entries@[a]).sap.prefix@ != (#[trigger] self.entries@[b]).sap.prefix@,
            decreases self.entries@.len() - i,
        {
            if !self.entries[i].sap.check_wf() {
                return false;
            }
            let mut j: usize = 0;
            while j < self.entries.len()
                invariant
                    i < self.entries@.len(),
                    j <= self.entries@.len(),
                    forall|b: int| 0 <= b < j && b != i ==> self.entries@[i as int].sap.prefix@ != (#[trigger] self.entries@[b]).sap.prefix@,
                decreases self.entries@.len() - j,
            {
                if j != i && self.entries[i].sap.prefix == self.entries[j].sap.prefix {
                    return false;
                }
                j = j + 1;
            }
            proof {
                assert forall|a: int, b: int| 0 <= a < i + 1 && 0 <= b < self.entries@.len() && a != b
                    implies (#[trigger] self.entries@[a]).sap.prefix@ != (#[trigger] self.entries@[b]).sap.prefix@ by {
                    if a == i as int {
                        assert(self.entries@[i as int].sap.prefix@ != self.entries@[b].sap.prefix@);
                    }
                }
            }
            i = i + 1;
        }
        true
    }

    /// The empty tree.
    pub fn new() -> (r: SectionTree)
        ensures
            r.wf(),
            r.entries@.len() == 0,
            r.view() == Map::<Seq<bool>, SapView>::empty(),
    {
        let r = SectionTree { entries: Vec::new() };
        assert(r.view() =~= Map::<Seq<bool>, SapView>::empty());
        r
    }

    /// Position of the entry with prefix `p`.
    pub fn find(&self, p: &Prefix) -> (r: Option<usize>)
        requires
            self.wf(),
        ensures
            r.is_some() <==> self.has_prefix(p@),
            r.is_some() ==> r.unwrap() == self.pos(p@) && r.unwrap() < self.entries@.len(),
    {
        let mut i: usize = 0;
        while i < self.entries.len()
            invariant
                self.wf(),
                i <= self.entries@.len(),
                forall|j: int| 0 <= j < i ==> self.entries@[j].sap.prefix@ != p@,
            decreases self.entries@.len() - i,
        {
            if self.entries[i].sap.prefix == *p {
                proof {
                    self.lemma_pos(i as int);
                }
                return Some(i);
            }
            i = i + 1;
        }
        None
    }

    /// The signed SAP for prefix `p`.
    pub fn get_signed(&self, p: &Prefix) -> (r: Option<&SignedSap>)
        requires
            self.wf(),
        ensures
            r.is_some() <==> self.view().dom().contains(p@),
            r.is_some() ==> r.unwrap()@ == self.view()[p@] && r.unwrap().sap.wf(),
    {
        match self.find(p) {
            Some(i) => Some(&self.entries[i]),
            None => None,
        }
    }

    /// Position of the entry whose prefix is the longest to match `name`;
    /// `None` when no entry matches.
    pub fn closest(&self, name: &XorName) -> (r: Option<usize>)
        requires
            self.wf(),
        ensures
            r.is_some() ==> self.is_closest(r.unwrap() as int, name@),
            r.is_none() <==> forall|j: int| 0 <= j < self.entries@.len() ==> !prefix_matches(#[trigger] self.entries@[j].sap.prefix@, name@),
    {
        let mut best: Option<usize> = None;
        let mut i: usize = 0;
        while i < self.entries.len()
            invariant
                self.wf(),
                i <= self.entries@.len(),
                best.is_none() ==> forall|j: int| 0 <= j < i ==> !prefix_matches(#[trigger] self.entries@[j].sap.prefix@, name@),
                best.is_some() ==> best.unwrap() < i && prefix_matches(self.entries@[best.unwrap() as int].sap.prefix@, name@),
                best.is_some() ==> forall|j: int| 0 <= j < i && prefix_matches(#[trigger] self.entries@[j].sap.prefix@, name@)
                    ==> self.entries@[j].sap.prefix@.len() <= self.entries@[best.unwrap() as int].sap.prefix@.len(),
            decreases self.entries@.len() - i,
        {
            proof {
                assert(self.entries@[i as int].sap.wf());
            }
            if self.entries[i].sap.prefix.matches(name) {
                match best {
                    None => {
                        best = Some(i);
                    },
                    Some(b) => {
                        if self.entries[i].sap.prefix.bit_count() > self.entries[b].sap.prefix.bit_count() {
                            best = Some(i);
                        }
                    },
                }
            }
            i = i + 1;
        }
        best
    }

    /// Whether a SAP for `p` of generation `g` would be taken.
    pub fn would_accept_exec(&self, p: &Prefix, g: u64) -> (r: bool)
        requires
            self.wf(),
        ensures
            r == self.would_accept(p@, g),
    {
        let mut i: usize = 0;
        while i < self.entries.len()
            invariant
                self.wf(),
                i <= self.entries@.len(),
                forall|j: int| 0 <= j < i ==> !is_strict_ancestor(p@, #[trigger] self.entries@[j].sap.prefix@),
            decreases self.entries@.len() - i,
        {
            let q = &self.entries[i].sap.prefix;
            if q.bit_count() > p.bit_count() && q.is_extension_of(p) {
                return false;
            }
            i = i + 1;
        }
        match self.find(p) {
            Some(k) => self.entries[k].sap.generation < g,
            None => true,
        }
    }

    /// Offers a signed SAP to the tree. It is taken when `would_accept` holds:
    /// it then replaces the entry for its prefix, and the entries under strict
    /// ancestors of its prefix, but for `keep`, are dropped.
    pub fn insert(&mut self, s: SignedSap, keep: &Prefix) -> (r: bool)
        requires
            old(self).wf(),
            s.sap.wf(),
        ensures
            final(self).wf(),
            r == old(self).would_accept(s.sap.prefix@, s.sap.generation),
            r ==> final(self).view() == old(self).view().remove_keys(dropped_set(s.sap.prefix@, keep@)).insert(s.sap.prefix@, s@),
            final(self).view() == tree_after(old(self).view(), s@, keep@),
            !r ==> final(self).view() == old(self).view(),
            !r ==> final(self).entries@ == old(self).entries@,
    {
        let ghost p = s.sap.prefix@;
        proof {
            self.lemma_would_accept_map(p, s.sap.generation);
        }
        let mut i: usize = 0;
        while i < self.entries.len()
            invariant
                old(self).wf(),
                *self == *old(self),
                s.sap.prefix@ == p,
                old(self).would_accept(p, s.sap.generation) == map_accepts(old(self).view(), p, s.sap.generation),
                i <= self.entries@.len(),
                forall|j: int| 0 <= j < i ==> !is_strict_ancestor(p, #[trigger] self.entries@[j].sap.prefix@),
            decreases self.entries@.len() - i,
        {
            let q = &self.entries[i].sap.prefix;
            if q.bit_count() > s.sap.prefix.bit_count() && q.is_extension_of(&s.sap.prefix) {
                return false;
            }
            i = i + 1;
        }
        if let Some(k) = self.find(&s.sap.prefix) {
            if self.entries[k].sap.generation >= s.sap.generation {
                return false;
            }
        }
        let ghost old_tree = *self;
        let mut kept: Vec<SignedSap> = Vec::new();
        let ghost mut src: Seq<int> = Seq::empty();
        let ghost mut back: Seq<int> = Seq::empty();
        let mut i: usize = 0;
        while i < self.entries.len()
            invariant
                *self == old_tree,
                old_tree.wf(),
                s.sap.prefix@ == p,
                i <= self.entries@.len(),
                src.len() == kept@.len(),
                back.len() == i,
                forall|k: int| 0 <= k < kept@.len() ==> (#[trigger] kept@[k]).sap.wf(),
                forall|k: int| 0 <= k < kept@.len() ==> (#[trigger] kept@[k]).sap.prefix@ != p,
                forall|k: int| 0 <= k < kept@.len() ==> !dropped_by((#[trigger] kept@[k]).sap.prefix@, p, keep@),
                forall|k: int| 0 <= k < kept@.len() ==> 0 <= #[trigger] src[k] < i && self.entries@[src[k]]@ == kept@[k]@,
                forall|j: int| 0 <= j < i && self.entries@[j].sap.prefix@ != p && !dropped_by(self.entries@[j].sap.prefix@, p, keep@)
                    ==> 0 <= #[trigger] back[j] < kept@.len() && kept@[back[j]]@ == self.entries@[j]@,
                forall|a: int, b: int| 0 <= a < kept@.len() && 0 <= b < kept@.len() && a != b
                    ==> (#[trigger] kept@[a]).sap.prefix@ != (#[trigger] kept@[b]).sap.prefix@,
            decreases self.entries@.len() - i,
        {
            let q = &self.entries[i].sap.prefix;
            let is_p = *q == s.sap.prefix;
            let dropped = q.bit_count() < s.sap.prefix.bit_count() && s.sap.prefix.is_extension_of(q) && !(*q == *keep);
            if !is_p && !dropped {
                let c = self.entries[i].copy();
                proof {
                    assert forall|k: int| 0 <= k < kept@.len() implies (#[trigger] kept@[k]).sap.prefix@ != c.sap.prefix@ by {
                        assert(self.entries@[src[k]].sap.prefix@ != self.entries@[i as int].sap.prefix@);
                    }
                    assert(self.entries@[i as int].sap.wf());
                    back = back.push(kept@.len() as int);
                    src = src.push(i as int);
                }
                kept.push(c);
            } else {
                proof {
                    back = back.push(-1);
                }
            }
            i = i + 1;
        }
        let ghost kept_before = kept@;
        kept.push(s);
        self.entries = kept;
        proof {
            let n = kept_before.len() as int;
            let m = old_tree.view().remove_keys(dropped_set(p, keep@)).insert(p, s@);
            assert(self.entries@[n]@ == s@);
            assert(self.has_prefix(p));
            assert forall|q: Seq<bool>| #[trigger] self.view().dom().contains(q) <==> m.dom().contains(q) by {
                if self.view().dom().contains(q) {
                    if q != p {
                        let k = self.pos(q);
                        assert(k < n);
                        let j = src[k];
                        assert(old_tree.entries@[j].sap.prefix@ == q);
                        assert(old_tree.has_prefix(q));
                        assert(!dropped_set(p, keep@).contains(q));
                    }
                }
                if m.dom().contains(q) && q != p {
                    assert(old_tree.has_prefix(q));
                    let j = old_tree.pos(q);
                    assert(!dropped_by(q, p, keep@));
                    let k = back[j];
                    assert(self.entries@[k].sap.prefix@ == q);
                }
            }
            assert forall|q: Seq<bool>| #[trigger] self.view().dom().contains(q) implies self.view()[q] == m[q] by {
                if q == p {
                    self.lemma_pos(n);
                } else {
                    let k = self.pos(q);
                    let j = src[k];
                    assert(old_tree.entries@[j].sap.prefix@ == q);
                    old_tree.lemma_pos(j);
                }
            }
            assert(self.view() =~= m);
        }
        true
    }
}

} // verus!
