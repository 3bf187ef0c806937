//! The section chain: an append-only DAG of section keys rooted at a genesis
//! key, where each edge `parent -> child` carries the parent's signature of
//! the child key.
use vstd::prelude::*;
use crate::keys::{bls_signature_valid, SectionKey, Signature};

verus! {

broadcast use vstd::array::group_array_axioms;

/// One edge of the chain: `sig` is `parent`'s signature of `child`'s bytes.
#[derive(Clone, Copy, Debug)]
pub struct ChainEdge {
    pub parent: SectionKey,
    pub child: SectionKey,
    pub sig: Signature,
}

/// Why an edge could not be added to a chain.
#[derive(Clone, Copy, Debug, PartialEq, Eq, Structural)]
pub enum ChainError {
    /// The parent key is not in the chain.
    MissingParent,
    /// The parent's signature of the child key does not verify.
    InvalidSignature,
    /// The child key is already in the chain under another parent or signature.
    KeyConflict,
}

/// The edge's signature verifies.
pub open spec fn edge_valid(e: ChainEdge) -> bool {
    bls_signature_valid(e.parent@, e.sig@, e.child@)
}

/// `k` is the genesis key `g` or a child in `es`.
pub open spec fn seq_has_key(g: Seq<u8>, es: Seq<ChainEdge>, k: Seq<u8>) -> bool {
    k == g || exists|j: int| 0 <= j < es.len() && #[trigger] es[j].child@ == k
}

/// Adding edge `e` to the chain `(g, es)` succeeds: either exactly this edge is
/// there already, or its child is new, its parent known and its signature valid.
pub open spec fn edge_ok(g: Seq<u8>, es: Seq<ChainEdge>, e: ChainEdge) -> bool {
    if seq_has_key(g, es, e.child@) {
        exists|j: int| 0 <= j < es.len() && #[trigger] es[j].child@ == e.child@ && es[j].parent@ == e.parent@
            && es[j].sig@ == e.sig@
    } else {
        seq_has_key(g, es, e.parent@) && edge_valid(e)
    }
}

/// The edges after adding `e`.
pub open spec fn after_insert(g: Seq<u8>, es: Seq<ChainEdge>, e: ChainEdge) -> Seq<ChainEdge> {
    if seq_has_key(g, es, e.child@) {
        es
    } else {
        es.push(e)
    }
}

/// The edges after adding each of `others` in turn, or `None` when one of them fails.
pub open spec fn merge_edges(g: Seq<u8>, es: Seq<ChainEdge>, others: Seq<ChainEdge>) -> Option<Seq<ChainEdge>>
    decreases others.len(),
{
    if others.len() == 0 {
        Some(es)
    } else {
        match merge_edges(g, es, others.drop_last()) {
            None => None,
            Some(es2) => if edge_ok(g, es2, others.last()) {
                Some(after_insert(g, es2, others.last()))
            } else {
                None
            },
        }
    }
}

/// Merging the chain `other` into `(g, es)` succeeds: its root is a key of
/// `(g, es)` and each of its edges can be added in turn.
pub open spec fn merge_ok(g: Seq<u8>, es: Seq<ChainEdge>, other_root: Seq<u8>, others: Seq<ChainEdge>) -> bool {
    seq_has_key(g, es, other_root) && merge_edges(g, es, others).is_some()
}

/// Merging when every key of `others` is already in `(g, es)` with the same
/// parent and signature leaves `es` as it is.
pub proof fn lemma_merge_monotone(g: Seq<u8>, es: Seq<ChainEdge>, others: Seq<ChainEdge>)
    requires
        merge_edges(g, es, others).is_some(),
    ensures
        merge_edges(g, es, others).unwrap().len() >= es.len(),
        merge_edges(g, es, others).unwrap().subrange(0, es.len() as int) == es,
    decreases others.len(),
{
    if others.len() > 0 {
        lemma_merge_monotone(g, es, others.drop_last());
        let es2 = merge_edges(g, es, others.drop_last()).unwrap();
        let es3 = after_insert(g, es2, others.last());
        assert(es3.subrange(0, es.len() as int) =~= es2.subrange(0, es.len() as int));
    }
}

/// Once merging a leading run of edges fails, merging any longer run fails too.
pub proof fn lemma_merge_none_extends(g: Seq<u8>, es: Seq<ChainEdge>, others: Seq<ChainEdge>, n: int)
    requires
        0 <= n <= others.len(),
        merge_edges(g, es, others.subrange(0, n)).is_none(),
    ensures
        merge_edges(g, es, others).is_none(),
    decreases others.len() - n,
{
    if n < others.len() {
        assert(others.subrange(0, n + 1).drop_last() =~= others.subrange(0, n));
        lemma_merge_none_extends(g, es, others, n + 1);
    } else {
        assert(others.subrange(0, n) =~= others);
    }
}

/// The parent and signature of each child key of `es` (the last edge wins).
pub open spec fn edge_map(es: Seq<ChainEdge>) -> Map<Seq<u8>, (Seq<u8>, Seq<u8>)>
    decreases es.len(),
{
    if es.len() == 0 {
        Map::empty()
    } else {
        edge_map(es.drop_last()).insert(es.last().child@, (es.last().parent@, es.last().sig@))
    }
}

/// No two edges of `es` share a child.
pub open spec fn children_unique(es: Seq<ChainEdge>) -> bool {
    forall|i: int, j: int| 0 <= i < es.len() && 0 <= j < es.len() && i != j
        ==> (#[trigger] es[i]).child@ != (#[trigger] es[j]).child@
}

/// The keys of `edge_map(es)` are the children of `es`, and with unique
/// children each maps to its own edge.
pub proof fn lemma_edge_map(es: Seq<ChainEdge>)
    ensures
        forall|k: Seq<u8>| #[trigger] edge_map(es).dom().contains(k) <==> exists|j: int| 0 <= j < es.len() && #[trigger] es[j].child@ == k,
        children_unique(es) ==> forall|j: int| 0 <= j < es.len() ==> #[trigger] edge_map(es)[es[j].child@] == (es[j].parent@, es[j].sig@),
    decreases es.len(),
{
    if es.len() > 0 {
        let init = es.drop_last();
        lemma_edge_map(init);
        assert forall|k: Seq<u8>| #[trigger] edge_map(es).dom().contains(k) <==> exists|j: int| 0 <= j < es.len() && #[trigger] es[j].child@ == k by {
            if edge_map(es).dom().contains(k) && k != es.last().child@ {
                assert(edge_map(init).dom().contains(k));
                let j = choose|j: int| 0 <= j < init.len() && #[trigger] init[j].child@ == k;
                assert(es[j] == init[j]);
            }
            if exists|j: int| 0 <= j < es.len() && #[trigger] es[j].child@ == k {
                let j = choose|j: int| 0 <= j < es.len() && #[trigger] es[j].child@ == k;
                if j < es.len() - 1 {
                    assert(init[j] == es[j]);
                    assert(init[j].child@ == k);
                    assert(edge_map(init).dom().contains(k));
                }
            }
        }
        if children_unique(es) {
            assert(children_unique(init)) by {
                assert forall|i: int, j: int| 0 <= i < init.len() && 0 <= j < init.len() && i != j
                    implies (#[trigger] init[i]).child@ != (#[trigger] init[j]).child@ by {
                    assert(init[i] == es[i] && init[j] == es[j]);
                }
            }
            assert forall|j: int| 0 <= j < es.len() implies #[trigger] edge_map(es)[es[j].child@] == (es[j].parent@, es[j].sig@) by {
                if j < es.len() - 1 {
                    assert(init[j] == es[j]);
                    assert(es[j].child@ != es[es.len() - 1].child@);
                    assert(edge_map(init)[init[j].child@] == (init[j].parent@, init[j].sig@));
                }
            }
        }
    }
}

/// What a successful merge of `others` into `es` gives: unique children
/// still, the old keys with their old edges, and every edge of `others`.
pub proof fn lemma_merge_result(g: Seq<u8>, es: Seq<ChainEdge>, others: Seq<ChainEdge>)
    requires
        children_unique(es),
        merge_edges(g, es, others).is_some(),
    ensures
        ({
            let r = merge_edges(g, es, others).unwrap();
            &&& children_unique(r)
            &&& forall|k: Seq<u8>| #[trigger] edge_map(r).dom().contains(k) <==> (edge_map(es).dom().contains(k)
                || exists|i: int| 0 <= i < others.len() && #[trigger] others[i].child@ == k)
            &&& forall|k: Seq<u8>| #[trigger] edge_map(es).dom().contains(k) ==> edge_map(r)[k] == edge_map(es)[k]
            &&& forall|i: int| 0 <= i < others.len() ==> #[trigger] edge_map(r)[others[i].child@] == (others[i].parent@, others[i].sig@)
        }),
    decreases others.len(),
{
    if others.len() == 0 {
        return;
    }
    let init = others.drop_last();
    let e = others.last();
    lemma_merge_result(g, es, init);
    let r1 = merge_edges(g, es, init).unwrap();
    let r = merge_edges(g, es, others).unwrap();
    lemma_edge_map(r1);
    lemma_edge_map(es);
    assert(edge_ok(g, r1, e));
    if seq_has_key(g, r1, e.child@) {
        let j = choose|j: int| 0 <= j < r1.len() && #[trigger] r1[j].child@ == e.child@ && r1[j].parent@ == e.parent@
            && r1[j].sig@ == e.sig@;
        assert(r == r1);
        assert(edge_map(r)[e.child@] == (e.parent@, e.sig@));
        assert forall|k: Seq<u8>| #[trigger] edge_map(r).dom().contains(k) <==> (edge_map(es).dom().contains(k)
            || exists|i: int| 0 <= i < others.len() && #[trigger] others[i].child@ == k) by {
            if exists|i: int| 0 <= i < others.len() && #[trigger] others[i].child@ == k {
                let i = choose|i: int| 0 <= i < others.len() && #[trigger] others[i].child@ == k;
                if i < others.len() - 1 {
                    assert(init[i] == others[i]);
                }
            }
            if edge_map(r).dom().contains(k) && !edge_map(es).dom().contains(k) {
                let i = choose|i: int| 0 <= i < init.len() && #[trigger] init[i].child@ == k;
                assert(others[i] == init[i]);
            }
        }
        assert forall|i: int| 0 <= i < others.len() implies #[trigger] edge_map(r)[others[i].child@] == (others[i].parent@, others[i].sig@) by {
            if i < others.len() - 1 {
                assert(init[i] == others[i]);
            }
        }
    } else {
        assert(r == r1.push(e));
        assert(r.drop_last() =~= r1);
        assert forall|j: int| 0 <= j < r1.len() implies (#[trigger] r1[j]).child@ != e.child@ by {}
        assert(children_unique(r)) by {
            assert forall|a: int, b: int| 0 <= a < r.len() && 0 <= b < r.len() && a != b
                implies (#[trigger] r[a]).child@ != (#[trigger] r[b]).child@ by {
                if a < r1.len() && b < r1.len() {
                    assert(r[a] == r1[a] && r[b] == r1[b]);
                } else if a < r1.len() {
                    assert(r[a] == r1[a]);
                } else {
                    assert(r[b] == r1[b]);
                }
            }
        }
        assert(!edge_map(r1).dom().contains(e.child@));
        assert forall|k: Seq<u8>| #[trigger] edge_map(r).dom().contains(k) <==> (edge_map(es).dom().contains(k)
            || exists|i: int| 0 <= i < others.len() && #[trigger] others[i].child@ == k) by {
            if exists|i: int| 0 <= i < others.len() && #[trigger] others[i].child@ == k {
                let i = choose|i: int| 0 <= i < others.len() && #[trigger] others[i].child@ == k;
                if i < others.len() - 1 {
                    assert(init[i] == others[i]);
                }
            }
            if edge_map(r).dom().contains(k) && !edge_map(es).dom().contains(k) && k != e.child@ {
                let i = choose|i: int| 0 <= i < init.len() && #[trigger] init[i].child@ == k;
                assert(others[i] == init[i]);
            }
        }
        assert forall|k: Seq<u8>| #[trigger] edge_map(es).dom().contains(k) implies edge_map(r)[k] == edge_map(es)[k] by {
            assert(edge_map(r1).dom().contains(k));
        }
        assert forall|i: int| 0 <= i < others.len() implies #[trigger] edge_map(r)[others[i].child@] == (others[i].parent@, others[i].sig@) by {
            if i < others.len() - 1 {
                assert(init[i] == others[i]);
                assert(edge_map(r1).dom().contains(init[i].child@));
            }
        }
    }
}

/// Merging two proof chains into a chain in either order, when both orders
/// succeed, gives the same parent and signature for every key.
pub proof fn lemma_chain_merges_commute(g: Seq<u8>, es: Seq<ChainEdge>, o1: Seq<ChainEdge>, o2: Seq<ChainEdge>)
    requires
        children_unique(es),
        merge_edges(g, es, o1).is_some(),
        merge_edges(g, merge_edges(g, es, o1).unwrap(), o2).is_some(),
        merge_edges(g, es, o2).is_some(),
        merge_edges(g, merge_edges(g, es, o2).unwrap(), o1).is_some(),
    ensures
        edge_map(merge_edges(g, merge_edges(g, es, o1).unwrap(), o2).unwrap())
            == edge_map(merge_edges(g, merge_edges(g, es, o2).unwrap(), o1).unwrap()),
{
    let a = merge_edges(g, es, o1).unwrap();
    let c = merge_edges(g, es, o2).unwrap();
    lemma_merge_result(g, es, o1);
    lemma_merge_result(g, es, o2);
    lemma_merge_result(g, a, o2);
    lemma_merge_result(g, c, o1);
    let b = merge_edges(g, a, o2).unwrap();
    let d = merge_edges(g, c, o1).unwrap();
    assert forall|k: Seq<u8>| #[trigger] edge_map(b).dom().contains(k) implies edge_map(d).dom().contains(k) && edge_map(b)[k] == edge_map(d)[k] by {
        if edge_map(es).dom().contains(k) {
        } else if exists|i: int| 0 <= i < o1.len() && #[trigger] o1[i].child@ == k {
            let i = choose|i: int| 0 <= i < o1.len() && #[trigger] o1[i].child@ == k;
            assert(edge_map(a).dom().contains(o1[i].child@));
        } else {
            let i = choose|i: int| 0 <= i < o2.len() && #[trigger] o2[i].child@ == k;
            assert(edge_map(c).dom().contains(o2[i].child@));
        }
    }
    assert forall|k: Seq<u8>| #[trigger] edge_map(d).dom().contains(k) implies edge_map(b).dom().contains(k) by {
        if !edge_map(es).dom().contains(k) && !(exists|i: int| 0 <= i < o1.len() && #[trigger] o1[i].child@ == k) {
            let i = choose|i: int| 0 <= i < o2.len() && #[trigger] o2[i].child@ == k;
        }
    }
    assert(edge_map(b) =~= edge_map(d));
}

/// Merging the same edges into two chains with the same edge map gives
/// chains with the same edge map.
pub proof fn lemma_merge_congruent(g: Seq<u8>, e1: Seq<ChainEdge>, e2: Seq<ChainEdge>, o: Seq<ChainEdge>)
    requires
        children_unique(e1),
        children_unique(e2),
        edge_map(e1) == edge_map(e2),
        merge_edges(g, e1, o).is_some(),
        merge_edges(g, e2, o).is_some(),
    ensures
        edge_map(merge_edges(g, e1, o).unwrap()) == edge_map(merge_edges(g, e2, o).unwrap()),
{
    lemma_merge_result(g, e1, o);
    lemma_merge_result(g, e2, o);
    let r1 = merge_edges(g, e1, o).unwrap();
    let r2 = merge_edges(g, e2, o).unwrap();
    assert forall|k: Seq<u8>| #[trigger] edge_map(r1).dom().contains(k) implies edge_map(r2).dom().contains(k)
        && edge_map(r1)[k] == edge_map(r2)[k] by {
        if !edge_map(e1).dom().contains(k) {
            let i = choose|i: int| 0 <= i < o.len() && #[trigger] o[i].child@ == k;
        }
    }
    assert forall|k: Seq<u8>| #[trigger] edge_map(r2).dom().contains(k) implies edge_map(r1).dom().contains(k) by {
        if !edge_map(e2).dom().contains(k) {
            let i = choose|i: int| 0 <= i < o.len() && #[trigger] o[i].child@ == k;
        }
    }
    assert(edge_map(r1) =~= edge_map(r2));
}

/// The edges after merging each of `os` in turn, or `None` when one fails.
pub open spec fn merge_all(g: Seq<u8>, es: Seq<ChainEdge>, os: Seq<Seq<ChainEdge>>) -> Option<Seq<ChainEdge>>
    decreases os.len(),
{
    if os.len() == 0 {
        Some(es)
    } else {
        match merge_all(g, es, os.drop_last()) {
            None => None,
            Some(r) => merge_edges(g, r, os.last()),
        }
    }
}

/// Merging `a` then `b` is merging `a + b`; the result keeps children unique.
pub proof fn lemma_merge_all_append(g: Seq<u8>, es: Seq<ChainEdge>, a: Seq<Seq<ChainEdge>>, b: Seq<Seq<ChainEdge>>)
    requires
        children_unique(es),
    ensures
        merge_all(g, es, a + b) == (match merge_all(g, es, a) {
            None => None,
            Some(r) => merge_all(g, r, b),
        }),
        merge_all(g, es, a).is_some() ==> children_unique(merge_all(g, es, a).unwrap()),
    decreases a.len() + b.len(),
{
    if b.len() == 0 {
        assert(a + b =~= a);
        if a.len() > 0 {
            lemma_merge_all_append(g, es, a.drop_last(), Seq::empty());
            assert(a.drop_last() + Seq::<Seq<ChainEdge>>::empty() =~= a.drop_last());
            if merge_all(g, es, a).is_some() {
                lemma_merge_result(g, merge_all(g, es, a.drop_last()).unwrap(), a.last());
            }
        }
    } else {
        assert((a + b).drop_last() =~= a + b.drop_last());
        assert((a + b).last() == b.last());
        lemma_merge_all_append(g, es, a, b.drop_last());
    }
}

/// `merge_all` keeps children unique.
proof fn lemma_merge_all_unique(g: Seq<u8>, es: Seq<ChainEdge>, os: Seq<Seq<ChainEdge>>)
    requires
        children_unique(es),
        merge_all(g, es, os).is_some(),
    ensures
        children_unique(merge_all(g, es, os).unwrap()),
{
    lemma_merge_all_append(g, es, os, Seq::empty());
}

/// Merging the same run of chains into two chains with the same edge map
/// gives chains with the same edge map.
proof fn lemma_merge_all_congruent(g: Seq<u8>, e1: Seq<ChainEdge>, e2: Seq<ChainEdge>, os: Seq<Seq<ChainEdge>>)
    requires
        children_unique(e1),
        children_unique(e2),
        edge_map(e1) == edge_map(e2),
        merge_all(g, e1, os).is_some(),
        merge_all(g, e2, os).is_some(),
    ensures
        edge_map(merge_all(g, e1, os).unwrap()) == edge_map(merge_all(g, e2, os).unwrap()),
    decreases os.len(),
{
    if os.len() > 0 {
        lemma_merge_all_congruent(g, e1, e2, os.drop_last());
        lemma_merge_all_unique(g, e1, os.drop_last());
        lemma_merge_all_unique(g, e2, os.drop_last());
        lemma_merge_congruent(g, merge_all(g, e1, os.drop_last()).unwrap(), merge_all(g, e2, os.drop_last()).unwrap(), os.last());
    }
}

/// In a run of proof chains merged in turn, swapping two neighbours leaves
/// the final edge map as it was, when both orders succeed; as such swaps
/// reach every order, every order that succeeds gives one chain.
pub proof fn lemma_chain_merges_swap(g: Seq<u8>, es: Seq<ChainEdge>, os: Seq<Seq<ChainEdge>>, i: int)
    requires
        children_unique(es),
        0 <= i,
        i + 1 < os.len(),
        merge_all(g, es, os).is_some(),
        merge_all(g, es, os.update(i, os[i + 1]).update(i + 1, os[i])).is_some(),
    ensures
        edge_map(merge_all(g, es, os).unwrap()) == edge_map(merge_all(g, es, os.update(i, os[i + 1]).update(i + 1, os[i])).unwrap()),
{
    let pre = os.subrange(0, i);
    let post = os.subrange(i + 2, os.len() as int);
    let x = os[i];
    let y = os[i + 1];
    let swapped = os.update(i, y).update(i + 1, x);
    assert(os =~= pre + seq![x, y] + post);
    assert(swapped =~= pre + seq![y, x] + post);
    lemma_merge_all_append(g, es, pre + seq![x, y], post);
    lemma_merge_all_append(g, es, pre + seq![y, x], post);
    lemma_merge_all_append(g, es, pre, seq![x, y]);
    lemma_merge_all_append(g, es, pre, seq![y, x]);
    let r0 = merge_all(g, es, pre).unwrap();
    lemma_merge_all_unique(g, es, pre);
    assert(seq![x, y].drop_last() =~= seq![x]);
    assert(seq![y, x].drop_last() =~= seq![y]);
    assert(seq![x].drop_last() =~= Seq::<Seq<ChainEdge>>::empty());
    assert(seq![y].drop_last() =~= Seq::<Seq<ChainEdge>>::empty());
    assert(merge_all(g, r0, Seq::<Seq<ChainEdge>>::empty()) == Some(r0));
    assert(merge_all(g, r0, seq![x]) == merge_edges(g, r0, x));
    assert(merge_all(g, r0, seq![y]) == merge_edges(g, r0, y));
    assert(seq![x, y].last() == y);
    assert(seq![y, x].last() == x);
    let b = merge_all(g, r0, seq![x, y]);
    let d = merge_all(g, r0, seq![y, x]);
    assert(b.is_some() && d.is_some());
    lemma_chain_merges_commute(g, r0, x, y);
    lemma_merge_all_unique(g, r0, seq![x, y]);
    lemma_merge_all_unique(g, r0, seq![y, x]);
    lemma_merge_all_congruent(g, b.unwrap(), d.unwrap(), post);
}

/// An append-only DAG of section keys. `edges` lists the edges in the order in
/// which they were added; a parent is always added before its children.
#[derive(Clone, Debug)]
pub struct SectionChain {
    pub genesis: SectionKey,
    pub edges: Vec<ChainEdge>,
}

impl SectionChain {
    /// Some edge before position `bound` has `k` as its child.
    pub open spec fn has_child(&self, k: Seq<u8>, bound: int) -> bool {
        exists|j: int| 0 <= j < bound && j < self.edges@.len() && #[trigger] self.edges@[j].child@ == k
    }

    /// `k` is a key of the chain.
    pub open spec fn has_key(&self, k: Seq<u8>) -> bool {
        k == self.genesis@ || self.has_child(k, self.edges@.len() as int)
    }

    /// Position of the edge whose child is `k`, or -1 for none.
    pub open spec fn child_pos(&self, k: Seq<u8>) -> int {
        if self.has_child(k, self.edges@.len() as int) {
            choose|j: int| 0 <= j < self.edges@.len() && #[trigger] self.edges@[j].child@ == k
        } else {
            -1
        }
    }

    /// Well-formed: every edge verifies, child keys are unique and differ from
    /// the genesis key, and every parent is the genesis key or an earlier child.
    pub open spec fn wf(&self) -> bool {
        &&& forall|i: int| 0 <= i < self.edges@.len() ==> edge_valid(#[trigger] self.edges@[i])
        &&& forall|i: int|
            0 <= i < self.edges@.len() ==> (#[trigger] self.edges@[i]).child@ != self.genesis@
        &&& forall|i: int, j: int|
            0 <= i < self.edges@.len() && 0 <= j < self.edges@.len() && i != j
                ==> (#[trigger] self.edges@[i]).child@ != (#[trigger] self.edges@[j]).child@
        &&& forall|i: int|
            0 <= i < self.edges@.len() ==> ((#[trigger] self.edges@[i]).parent@ == self.genesis@
                || self.has_child(self.edges@[i].parent@, i))
    }

    /// Positions of the edges leading from the genesis key to the child of edge `i`.
    pub open spec fn path_idx(&self, i: int) -> Seq<int>
        decreases i,
    {
        if 0 <= i < self.edges@.len() {
            let p = self.edges@[i].parent@;
            if p != self.genesis@ && self.has_child(p, i) {
                let j = choose|j: int| 0 <= j < i && j < self.edges@.len() && #[trigger] self.edges@[j].child@ == p;
                self.path_idx(j).push(i)
            } else {
                seq![i]
            }
        } else {
            Seq::empty()
        }
    }

    /// Positions of the edges leading from the genesis key to `k`.
    pub open spec fn path_to(&self, k: Seq<u8>) -> Seq<int> {
        self.path_idx(self.child_pos(k))
    }

    /// `a` lies on the path from the genesis key to `k` (`k` itself included).
    pub open spec fn on_path(&self, a: Seq<u8>, k: Seq<u8>) -> bool {
        a == self.genesis@ || exists|m: int|
            0 <= m < self.path_to(k).len() && #[trigger] self.edges@[self.path_to(k)[m]].child@ == a
    }

    /// The edges from `a` (exclusive) down to `k`, when `a` is on the path to `k`.
    pub open spec fn segment(&self, a: Seq<u8>, k: Seq<u8>) -> Seq<ChainEdge> {
        let p = self.path_to(k);
        let start = if a == self.genesis@ {
            0
        } else {
            (choose|m: int| 0 <= m < p.len() && #[trigger] self.edges@[p[m]].child@ == a) + 1
        };
        p.subrange(start, p.len() as int).map_values(|i: int| self.edges@[i])
    }

    /// The last key of a chain that is a single path: the last child, or the
    /// genesis key when there is no edge.
    pub open spec fn last_key(&self) -> Seq<u8> {
        if self.edges@.len() == 0 {
            self.genesis@
        } else {
            self.edges@.last().child@
        }
    }

    /// The parent key of each child key.
    pub open spec fn parents(&self) -> Map<Seq<u8>, Seq<u8>> {
        Map::new(|k: Seq<u8>| self.has_child(k, self.edges@.len() as int),
            |k: Seq<u8>| self.edges@[self.child_pos(k)].parent@)
    }

    /// In a well-formed chain, the path to edge `i` is a linked run of edge
    /// positions that starts at the genesis key, ends at `i` and increases.
    pub proof fn lemma_path_shape(&self, i: int)
        requires
            self.wf(),
            0 <= i < self.edges@.len(),
        ensures
            self.path_idx(i).len() >= 1,
            self.path_idx(i).last() == i,
            self.edges@[self.path_idx(i)[0]].parent@ == self.genesis@,
            forall|m: int| 0 <= m < self.path_idx(i).len() ==> 0 <= #[trigger] self.path_idx(i)[m] <= i,
            forall|m: int, n: int| 0 <= m < n < self.path_idx(i).len() ==>
                #[trigger] self.path_idx(i)[m] < #[trigger] self.path_idx(i)[n],
            forall|m: int| 0 < m < self.path_idx(i).len() ==>
                self.edges@[#[trigger] self.path_idx(i)[m]].parent@ == self.edges@[self.path_idx(i)[m - 1]].child@,
        decreases i,
    {
        let p = self.edges@[i].parent@;
        if p != self.genesis@ && self.has_child(p, i) {
            let j = choose|j: int| 0 <= j < i && j < self.edges@.len() && #[trigger] self.edges@[j].child@ == p;
            self.lemma_path_shape(j);
            let pj = self.path_idx(j);
            assert(self.path_idx(i) == pj.push(i));
            assert forall|m: int, n: int| 0 <= m < n < self.path_idx(i).len() implies
                #[trigger] self.path_idx(i)[m] < #[trigger] self.path_idx(i)[n] by {
                if n < pj.len() {
                    assert(pj[m] < pj[n]);
                } else {
                    assert(pj[m] <= j);
                }
            }
        } else {
            assert(self.has_child(self.edges@[i].parent@, i) ==> p == self.genesis@);
        }
    }

    /// Two edges of a well-formed chain with the same child are the same edge.
    pub proof fn lemma_unique_child(&self, a: int, b: int)
        requires
            self.wf(),
            0 <= a < self.edges@.len(),
            0 <= b < self.edges@.len(),
            self.edges@[a].child@ == self.edges@[b].child@,
        ensures
            a == b,
    {
        if a != b {
            assert(self.edges@[a].child@ != self.edges@[b].child@);
        }
    }

    /// The segment from `a` to `k` of a well-formed chain is itself a
    /// well-formed chain rooted at `a` whose last key is `k`.
    #[verifier::rlimit(60)]
    pub proof fn lemma_segment_wf(&self, c: &SectionChain, a: Seq<u8>, k: Seq<u8>)
        requires
            self.wf(),
            self.has_key(k),
            self.on_path(a, k),
            c.genesis@ == a,
            c.edges@ == self.segment(a, k),
        ensures
            c.wf(),
            c.last_key() == k,
    {
        let p = self.path_to(k);
        if k == self.genesis@ {
            if self.has_child(k, self.edges@.len() as int) {
                let w = choose|j: int| 0 <= j < self.edges@.len() && #[trigger] self.edges@[j].child@ == k;
                assert(self.edges@[w].child@ != self.genesis@);
            }
            assert(p.len() == 0);
            assert(c.edges@.len() == 0);
            return;
        }
        let i = self.child_pos(k);
        self.lemma_path_shape(i);
        let start = if a == self.genesis@ {
            0
        } else {
            (choose|m: int| 0 <= m < p.len() && #[trigger] self.edges@[p[m]].child@ == a) + 1
        };
        assert(0 <= start <= p.len());
        assert(c.edges@.len() == p.len() - start);
        assert forall|x: int| 0 <= x < c.edges@.len() implies #[trigger] c.edges@[x] == self.edges@[p[start + x]] by {}
        // every edge verifies
        assert forall|x: int| 0 <= x < c.edges@.len() implies edge_valid(#[trigger] c.edges@[x]) by {
            assert(c.edges@[x] == self.edges@[p[start + x]]);
        }
        // children differ from the new root
        assert forall|x: int| 0 <= x < c.edges@.len() implies (#[trigger] c.edges@[x]).child@ != c.genesis@ by {
            assert(c.edges@[x] == self.edges@[p[start + x]]);
            if a != self.genesis@ {
                assert(p[start - 1] < p[start + x]);
                if self.edges@[p[start + x]].child@ == a {
                    self.lemma_unique_child(p[start + x], p[start - 1]);
                }
            }
        }
        // children are unique
        assert forall|x: int, y: int|
            0 <= x < c.edges@.len() && 0 <= y < c.edges@.len() && x != y
                implies (#[trigger] c.edges@[x]).child@ != (#[trigger] c.edges@[y]).child@ by {
            assert(c.edges@[x] == self.edges@[p[start + x]]);
            assert(c.edges@[y] == self.edges@[p[start + y]]);
            if x < y {
                assert(p[start + x] < p[start + y]);
            } else {
                assert(p[start + y] < p[start + x]);
            }
        }
        // each parent is the root or an earlier child
        assert forall|x: int| 0 <= x < c.edges@.len() implies ((#[trigger] c.edges@[x]).parent@ == c.genesis@
            || c.has_child(c.edges@[x].parent@, x)) by {
            assert(c.edges@[x] == self.edges@[p[start + x]]);
            if x > 0 {
                assert(c.edges@[x - 1] == self.edges@[p[start + x - 1]]);
                assert(c.edges@[x - 1].child@ == c.edges@[x].parent@);
            } else if start > 0 {
                assert(self.edges@[p[start]].parent@ == self.edges@[p[start - 1]].child@);
            }
        }
        // the last key
        if c.edges@.len() > 0 {
            assert(c.edges@.last() == self.edges@[p.last()]);
        } else if a != self.genesis@ {
            assert(start == p.len());
            assert(self.edges@[p[start - 1]].child@ == a);
            assert(p[start - 1] == i);
        }
    }

    /// Positions of the edges leading from the genesis key to the child of edge `i`.
    fn path_indices(&self, i: usize) -> (r: Vec<usize>)
        requires
            self.wf(),
            i < self.edges@.len(),
        ensures
            r@.len() == self.path_idx(i as int).len(),
            forall|m: int| 0 <= m < r@.len() ==> r@[m] as int == #[trigger] self.path_idx(i as int)[m],
        decreases i,
    {
        let p = self.edges[i].parent;
        if p == self.genesis {
            let mut v: Vec<usize> = Vec::new();
            v.push(i);
            return v;
        }
        let found = self.find_child(&p, i);
        proof {
            assert(self.edges@[i as int].parent@ == self.genesis@ || self.has_child(self.edges@[i as int].parent@, i as int));
        }
        let j = found.unwrap();
        let mut v = self.path_indices(j);
        proof {
            let js = choose|x: int| 0 <= x < i && x < self.edges@.len() && #[trigger] self.edges@[x].child@ == p@;
            self.lemma_unique_child(js, j as int);
            assert(self.path_idx(i as int) == self.path_idx(j as int).push(i as int));
        }
        v.push(i);
        v
    }

    /// The proof chain from `from` down to `to`: the edges of the path from the
    /// genesis key to `to` that come after `from`, as a chain rooted at `from`.
    /// `None` when `to` is not in the chain or `from` is not on its path.
    pub fn get_proof_chain(&self, from: &SectionKey, to: &SectionKey) -> (r: Option<SectionChain>)
        requires
            self.wf(),
        ensures
            r.is_some() <==> (self.has_key(to@) && self.on_path(from@, to@)),
            r.is_some() ==> r.unwrap().genesis@ == from@ && r.unwrap().edges@ == self.segment(from@, to@),
            r.is_some() ==> r.unwrap().wf() && r.unwrap().last_key() == to@,
    {
        if *to == self.genesis {
            proof {
                if self.has_child(to@, self.edges@.len() as int) {
                    let w = choose|j: int| 0 <= j < self.edges@.len() && #[trigger] self.edges@[j].child@ == to@;
                    assert(self.edges@[w].child@ != self.genesis@);
                }
                assert(self.path_to(to@).len() == 0);
            }
            if *from == self.genesis {
                let c = SectionChain { genesis: *from, edges: Vec::new() };
                proof {
                    assert(c.edges@ =~= self.segment(from@, to@));
                    self.lemma_segment_wf(&c, from@, to@);
                }
                return Some(c);
            }
            return None;
        }
        let i = match self.find_child(to, self.edges.len()) {
            Some(i) => i,
            None => {
                return None;
            },
        };
        let p = self.path_indices(i);
        let ghost gp = self.path_to(to@);
        proof {
            assert(gp == self.path_idx(i as int));
            self.lemma_path_shape(i as int);
        }
        let mut start: usize = 0;
        if *from != self.genesis {
            let mut m: usize = 0;
            let mut found = false;
            while m < p.len()
                invariant
                    self.wf(),
                    p@.len() == gp.len(),
                    forall|x: int| 0 <= x < p@.len() ==> p@[x] as int == #[trigger] gp[x],
                    forall|x: int| 0 <= x < p@.len() ==> 0 <= #[trigger] gp[x] < self.edges@.len(),
                    m <= p@.len(),
                    !found ==> forall|x: int| 0 <= x < m ==> self.edges@[#[trigger] gp[x]].child@ != from@,
                    found ==> 0 < start <= p@.len() && self.edges@[gp[start - 1]].child@ == from@,
                decreases p@.len() - m,
            {
                proof {
                    assert(p@[m as int] as int == gp[m as int]);
                }
                if !found && self.edges[p[m]].child == *from {
                    found = true;
                    start = m + 1;
                }
                m = m + 1;
            }
            if !found {
                return None;
            }
            proof {
                let cm = choose|x: int| 0 <= x < gp.len() && #[trigger] self.edges@[gp[x]].child@ == from@;
                self.lemma_unique_child(gp[cm], gp[start - 1]);
                if cm < start - 1 {
                    assert(gp[cm] < gp[start - 1]);
                } else if cm > start - 1 {
                    assert(gp[start - 1] < gp[cm]);
                }
            }
        }
        let mut edges: Vec<ChainEdge> = Vec::new();
        let mut k: usize = start;
        while k < p.len()
            invariant
                start <= k <= p@.len(),
                p@.len() == gp.len(),
                forall|x: int| 0 <= x < p@.len() ==> p@[x] as int == #[trigger] gp[x],
                forall|x: int| 0 <= x < p@.len() ==> 0 <= #[trigger] gp[x] < self.edges@.len(),
                edges@ == gp.subrange(start as int, k as int).map_values(|x: int| self.edges@[x]),
            decreases p@.len() - k,
        {
            proof {
                assert(p@[k as int] as int == gp[k as int]);
            }
            edges.push(self.edges[p[k]]);
            proof {
                assert(gp.subrange(start as int, k + 1).map_values(|x: int| self.edges@[x])
                    =~= gp.subrange(start as int, k as int).map_values(|x: int| self.edges@[x]).push(self.edges@[gp[k as int]]));
            }
            k = k + 1;
        }
        let c = SectionChain { genesis: *from, edges };
        proof {
            assert(c.edges@ =~= self.segment(from@, to@));
            self.lemma_segment_wf(&c, from@, to@);
        }
        Some(c)
    }

    /// `has_key` is `seq_has_key` on the chain's parts.
    pub proof fn lemma_has_key_seq(&self, k: Seq<u8>)
        ensures
            self.has_key(k) == seq_has_key(self.genesis@, self.edges@, k),
    {
        if seq_has_key(self.genesis@, self.edges@, k) && k != self.genesis@ {
            let j = choose|j: int| 0 <= j < self.edges@.len() && #[trigger] self.edges@[j].child@ == k;
            assert(self.has_child(k, self.edges@.len() as int));
        }
    }

    /// A copy of this chain.
    pub fn copy(&self) -> (r: SectionChain)
        ensures
            r.genesis == self.genesis,
            r.edges@ == self.edges@,
    {
        let mut edges: Vec<ChainEdge> = Vec::new();
        let mut i: usize = 0;
        while i < self.edges.len()
            invariant
                i <= self.edges@.len(),
                edges@ == self.edges@.subrange(0, i as int),
            decreases self.edges@.len() - i,
        {
            edges.push(self.edges[i]);
            i = i + 1;
        }
        assert(edges@ =~= self.edges@);
        SectionChain { genesis: self.genesis, edges }
    }

    /// Adds the edges of `other`, in order, to this chain. Either all of them
    /// are added (or already there), and the result is `true`, or the chain is
    /// left as it was and the result is `false`.
    pub fn merge(&mut self, other: &SectionChain) -> (r: bool)
        requires
            old(self).wf(),
        ensures
            final(self).wf(),
            final(self).genesis == old(self).genesis,
            r == merge_ok(old(self).genesis@, old(self).edges@, other.genesis@, other.edges@),
            r ==> final(self).edges@ == merge_edges(old(self).genesis@, old(self).edges@, other.edges@).unwrap(),
            !r ==> final(self).edges@ == old(self).edges@,
    {
        proof {
            self.lemma_has_key_seq(other.genesis@);
        }
        if !self.has_key_exec(&other.genesis) {
            return false;
        }
        let mut tmp = self.copy();
        let ghost g = self.genesis@;
        let mut i: usize = 0;
        while i < other.edges.len()
            invariant
                *self == *old(self),
                old(self).wf(),
                tmp.wf(),
                tmp.genesis == self.genesis,
                g == self.genesis@,
                i <= other.edges@.len(),
                merge_edges(g, self.edges@, other.edges@.subrange(0, i as int)) == Some(tmp.edges@),
            decreases other.edges@.len() - i,
        {
            let e = other.edges[i];
            let ghost before = tmp;
            proof {
                before.lemma_has_key_seq(e.child@);
                before.lemma_has_key_seq(e.parent@);
                assert(other.edges@.subrange(0, i + 1).drop_last() =~= other.edges@.subrange(0, i as int));
            }
            match tmp.insert(&e.parent, e.child, e.sig) {
                Ok(added) => {
                    proof {
                        if added {
                            assert(!before.has_key(e.child@));
                        }
                        if before.has_key(e.child@) {
                            if before.has_child(e.child@, before.edges@.len() as int) {
                                let c = before.child_pos(e.child@);
                                assert(before.edges@[c].child@ == e.child@);
                            }
                        }
                        assert(tmp.edges@ == after_insert(g, before.edges@, e));
                    }
                },
                Err(err) => {
                    proof {
                        if edge_ok(g, before.edges@, e) && seq_has_key(g, before.edges@, e.child@) {
                            let j = choose|j: int| 0 <= j < before.edges@.len() && #[trigger] before.edges@[j].child@ == e.child@
                                && before.edges@[j].parent@ == e.parent@ && before.edges@[j].sig@ == e.sig@;
                            assert(before.has_child(e.child@, before.edges@.len() as int));
                            let c = before.child_pos(e.child@);
                            before.lemma_unique_child(c, j);
                            assert(false);
                        }
                        if seq_has_key(g, before.edges@, e.child@) {
                            if e.child@ == g {
                                if exists|j: int| 0 <= j < before.edges@.len() && #[trigger] before.edges@[j].child@ == e.child@ {
                                    let j = choose|j: int| 0 <= j < before.edges@.len() && #[trigger] before.edges@[j].child@ == e.child@;
                                    assert(before.edges@[j].child@ != before.genesis@);
                                }
                            }
                            assert(!edge_ok(g, before.edges@, e));
                        } else {
                            assert(!before.has_key(e.child@));
                            assert(err != ChainError::KeyConflict);
                            if err == ChainError::MissingParent {
                                assert(!before.has_key(e.parent@));
                            } else {
                                assert(err == ChainError::InvalidSignature);
                                assert(!edge_valid(e));
                            }
                            assert(!edge_ok(g, before.edges@, e));
                        }
                        lemma_merge_none_extends(g, self.edges@, other.edges@, i as int + 1);
                        assert(other.edges@.subrange(0, other.edges@.len() as int) =~= other.edges@);
                    }
                    return false;
                },
            }
            i = i + 1;
        }
        proof {
            assert(other.edges@.subrange(0, other.edges@.len() as int) =~= other.edges@);
        }
        *self = tmp;
        true
    }

    /// Whether the chain is well-formed.
    pub fn check_wf(&self) -> (r: bool)
        ensures
            r == self.wf(),
    {
        let mut i: usize = 0;
        while i < self.edges.len()
            invariant
                i <= self.edges@.len(),
                forall|k: int| 0 <= k < i ==> edge_valid(#[trigger] self.edges@[k]),
                forall|k: int| 0 <= k < i ==> (#[trigger] self.edges@[k]).child@ != self.genesis@,
                forall|a: int, b: int| 0 <= a < i && 0 <= b < i && a != b
                    ==> (#[trigger] self.edges@[a]).child@ != (#[trigger] self.edges@[b]).child@,
                forall|k: int| 0 <= k < i ==> ((#[trigger] self.edges@[k]).parent@ == self.genesis@
                    || self.has_child(self.edges@[k].parent@, k)),
            decreases self.edges@.len() - i,
        {
            let e = self.edges[i];
            let msg = e.child.to_vec();
            if !e.parent.verify(&e.sig, msg.as_slice()) {
                assert(!edge_valid(self.edges@[i as int]));
                return false;
            }
            if e.child == self.genesis {
                assert(self.edges@[i as int].child@ == self.genesis@);
                return false;
            }
            let mut j: usize = 0;
            let mut parent_seen = e.parent == self.genesis;
            while j < i
                invariant
                    i < self.edges@.len(),
                    e == self.edges@[i as int],
                    j <= i,
                    forall|k: int| 0 <= k < j ==> (#[trigger] self.edges@[k]).child@ != e.child@,
                    parent_seen <==> (e.parent@ == self.genesis@ || exists|k: int| 0 <= k < j && #[trigger] self.edges@[k].child@ == e.parent@),
                decreases i - j,
            {
                let c = self.edges[j].child;
                if c == e.child {
                    assert(self.edges@[j as int].child@ == self.edges@[i as int].child@);
                    return false;
                }
                if c == e.parent {
                    parent_seen = true;
                }
                j = j + 1;
            }
            if !parent_seen {
                assert(!self.has_child(self.edges@[i as int].parent@, i as int));
                return false;
            }
            proof {
                assert forall|a: int, b: int| 0 <= a < i + 1 && 0 <= b < i + 1 && a != b
                    implies (#[trigger] self.edges@[a]).child@ != (#[trigger] self.edges@[b]).child@ by {
                    if a == i as int {
                        assert(self.edges@[b].child@ != e.child@);
                    } else if b == i as int {
                        assert(self.edges@[a].child@ != e.child@);
                    }
                }
                assert forall|k: int| 0 <= k < i + 1 implies ((#[trigger] self.edges@[k]).parent@ == self.genesis@
                    || self.has_child(self.edges@[k].parent@, k)) by {
                    if k == i as int && e.parent@ != self.genesis@ {
                        let w = choose|w: int| 0 <= w < i && #[trigger] self.edges@[w].child@ == e.parent@;
                        assert(self.edges@[w].child@ == self.edges@[k].parent@);
                    }
                }
            }
            i = i + 1;
        }
        true
    }

    /// The chain that holds the genesis key alone.
    pub fn new(genesis: SectionKey) -> (r: SectionChain)
        ensures
            r.wf(),
            r.genesis@ == genesis@,
            r.edges@.len() == 0,
    {
        SectionChain { genesis, edges: Vec::new() }
    }

    /// The genesis key.
    pub fn genesis_key(&self) -> (r: SectionKey)
        ensures
            r@ == self.genesis@,
    {
        self.genesis
    }

    /// Number of edges.
    pub fn len(&self) -> (r: usize)
        ensures
            r == self.edges@.len(),
    {
        self.edges.len()
    }

    /// Position of the edge whose child is `k`, searching the first `bound` edges.
    fn find_child(&self, k: &SectionKey, bound: usize) -> (r: Option<usize>)
        requires
            self.wf(),
            bound <= self.edges@.len(),
        ensures
            r.is_some() <==> self.has_child(k@, bound as int),
            r.is_some() ==> r.unwrap() < bound && self.edges@[r.unwrap() as int].child@ == k@,
            r.is_some() ==> r.unwrap() == self.child_pos(k@),
    {
        let mut j: usize = 0;
        while j < bound
            invariant
                self.wf(),
                j <= bound <= self.edges@.len(),
                forall|m: int| 0 <= m < j ==> self.edges@[m].child@ != k@,
            decreases bound - j,
        {
            if self.edges[j].child == *k {
                proof {
                    let c = self.child_pos(k@);
                    assert(self.has_child(k@, self.edges@.len() as int));
                    assert(self.edges@[c].child@ == k@);
                    if c != j as int {
                        assert(self.edges@[c].child@ != self.edges@[j as int].child@);
                    }
                }
                return Some(j);
            }
            j = j + 1;
        }
        None
    }

    /// Whether `k` is a key of the chain.
    pub fn has_key_exec(&self, k: &SectionKey) -> (r: bool)
        requires
            self.wf(),
        ensures
            r == self.has_key(k@),
    {
        if self.genesis == *k {
            return true;
        }
        self.find_child(k, self.edges.len()).is_some()
    }

    /// The parent of `k`: `None` for the genesis key and for keys not in the chain.
    pub fn get_parent_key(&self, k: &SectionKey) -> (r: Option<SectionKey>)
        requires
            self.wf(),
        ensures
            r.is_some() <==> self.parents().dom().contains(k@),
            r.is_some() ==> r.unwrap()@ == self.parents()[k@],
    {
        match self.find_child(k, self.edges.len()) {
            Some(j) => Some(self.edges[j].parent),
            None => None,
        }
    }

    /// Adds the edge `parent -> child` signed by `sig`. Returns `Ok(true)` when
    /// the edge was added, `Ok(false)` when exactly this edge is already there.
    pub fn insert(&mut self, parent: &SectionKey, child: SectionKey, sig: Signature) -> (r: Result<bool, ChainError>)
        requires
            old(self).wf(),
        ensures
            final(self).wf(),
            final(self).genesis == old(self).genesis,
            r == Ok::<bool, ChainError>(true) ==> final(self).edges@ == old(self).edges@.push(ChainEdge { parent: *parent, child, sig }),
            r != Ok::<bool, ChainError>(true) ==> final(self).edges@ == old(self).edges@,
            r == Ok::<bool, ChainError>(false) <==> (old(self).has_child(child@, old(self).edges@.len() as int)
                && old(self).edges@[old(self).child_pos(child@)].parent@ == parent@
                && old(self).edges@[old(self).child_pos(child@)].sig@ == sig@),
            r == Err::<bool, ChainError>(ChainError::KeyConflict) <==> (old(self).has_key(child@)
                && !(old(self).has_child(child@, old(self).edges@.len() as int)
                && old(self).edges@[old(self).child_pos(child@)].parent@ == parent@
                && old(self).edges@[old(self).child_pos(child@)].sig@ == sig@)),
            r == Err::<bool, ChainError>(ChainError::MissingParent) <==> (!old(self).has_key(child@)
                && !old(self).has_key(parent@)),
            r == Err::<bool, ChainError>(ChainError::InvalidSignature) <==> (!old(self).has_key(child@)
                && old(self).has_key(parent@) && !bls_signature_valid(parent@, sig@, child@)),
    {
        if let Some(j) = self.find_child(&child, self.edges.len()) {
            let e = self.edges[j];
            if e.parent == *parent && e.sig == sig {
                return Ok(false);
            }
            return Err(ChainError::KeyConflict);
        }
        if self.genesis == child {
            return Err(ChainError::KeyConflict);
        }
        if !self.has_key_exec(parent) {
            return Err(ChainError::MissingParent);
        }
        let msg = child.to_vec();
        if !parent.verify(&sig, msg.as_slice()) {
            return Err(ChainError::InvalidSignature);
        }
        let ghost before = *self;
        let e = ChainEdge { parent: *parent, child, sig };
        self.edges.push(e);
        proof {
            let n = before.edges@.len() as int;
            assert(self.edges@[n] == e);
            assert forall|i: int| 0 <= i < self.edges@.len() implies ((#[trigger] self.edges@[i]).parent@ == self.genesis@
                || self.has_child(self.edges@[i].parent@, i)) by {
                if i < n {
                    assert(self.edges@[i] == before.edges@[i]);
                    if self.edges@[i].parent@ != self.genesis@ {
                        let w = choose|j: int| 0 <= j < i && j < before.edges@.len() && #[trigger] before.edges@[j].child@ == before.edges@[i].parent@;
                        assert(self.edges@[w] == before.edges@[w]);
                    }
                } else if parent@ != self.genesis@ {
                    let w = choose|j: int| 0 <= j < before.edges@.len() && #[trigger] before.edges@[j].child@ == parent@;
                    assert(self.edges@[w] == before.edges@[w]);
                }
            }
            assert forall|i: int, j: int|
                0 <= i < self.edges@.len() && 0 <= j < self.edges@.len() && i != j
                    implies (#[trigger] self.edges@[i]).child@ != (#[trigger] self.edges@[j]).child@ by {
                if i < n && j < n {
                    assert(self.edges@[i] == before.edges@[i]);
                    assert(self.edges@[j] == before.edges@[j]);
                } else if i < n {
                    assert(self.edges@[i] == before.edges@[i]);
                } else {
                    assert(self.edges@[j] == before.edges@[j]);
                }
            }
            assert forall|i: int| 0 <= i < self.edges@.len() implies edge_valid(#[trigger] self.edges@[i]) by {
                if i < n {
                    assert(self.edges@[i] == before.edges@[i]);
                }
            }
            assert forall|i: int| 0 <= i < self.edges@.len() implies (#[trigger] self.edges@[i]).child@ != self.genesis@ by {
                if i < n {
                    assert(self.edges@[i] == before.edges@[i]);
                }
            }
        }
        Ok(true)
    }
}

} // verus!
