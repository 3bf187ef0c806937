//! A node's view of the network: the chain of all known section keys, the
//! section tree, its own prefix and the members of its section.
use vstd::prelude::*;
use crate::keys::SectionKey;
use crate::sap::{Peer, SapView, SectionAuthorityProvider, SignedNodeState, SignedSap};
use crate::section_chain::{lemma_merge_monotone, merge_edges, merge_ok, seq_has_key, ChainEdge, SectionChain};
use crate::section_chain::{children_unique, edge_map, lemma_chain_merges_commute};
use crate::section_tree::{lemma_tree_updates_commute, tree_after, SectionTree};
use crate::xor_space::{is_extension_of, prefix_matches, Prefix, XorName};

verus! {

/// A signed SAP together with a proof chain that vouches for its key.
#[derive(Clone, Debug)]
pub struct SectionTreeUpdate {
    pub signed_sap: SignedSap,
    pub proof_chain: SectionChain,
}

/// Why network knowledge was not built or updated.
#[derive(Clone, Copy, Debug, PartialEq, Eq, Structural)]
pub enum KnowledgeError {
    /// A SAP, proof chain or member list failed its signature or ancestry checks.
    UntrustedUpdate,
}

/// Every member is signed by the key of `sap`, and every elder of `sap` is a member.
pub open spec fn members_valid(ms: Seq<SignedNodeState>, sap: SectionAuthorityProvider) -> bool {
    &&& forall|i: int| 0 <= i < ms.len() ==> (#[trigger] ms[i]).sig.public_key@ == sap.section_key@ && ms[i].sig_valid()
    &&& forall|e: int| 0 <= e < sap.elders@.len() ==> has_member_named(ms, (#[trigger] sap.elders@[e]).name@)
}

/// Some member is named `n`.
pub open spec fn has_member_named(ms: Seq<SignedNodeState>, n: Seq<u8>) -> bool {
    exists|i: int| 0 <= i < ms.len() && #[trigger] ms[i].node.name@ == n
}

/// The prefix a node named `name` holds after accepting a SAP for `p` when
/// it held `ours`: `p` when `p` lies under `ours` and holds `name`.
pub open spec fn next_prefix(ours: Seq<bool>, p: Seq<bool>, name: Seq<u8>) -> Seq<bool> {
    if is_extension_of(p, ours) && prefix_matches(p, name) {
        p
    } else {
        ours
    }
}

/// Whether every member is signed by the SAP's key and every elder is a member.
pub fn members_valid_exec(ms: &Vec<SignedNodeState>, sap: &SectionAuthorityProvider) -> (r: bool)
    ensures
        r == members_valid(ms@, *sap),
{
    let mut i: usize = 0;
    while i < ms.len()
        invariant
            i <= ms@.len(),
            forall|k: int| 0 <= k < i ==> (#[trigger] ms@[k]).sig.public_key@ == sap.section_key@ && ms@[k].sig_valid(),
        decreases ms@.len() - i,
    {
        if !(ms[i].sig.public_key == sap.section_key) || !ms[i].verify_sig() {
            return false;
        }
        i = i + 1;
    }
    let mut e: usize = 0;
    while e < sap.elders.len()
        invariant
            forall|k: int| 0 <= k < ms@.len() ==> (#[trigger] ms@[k]).sig.public_key@ == sap.section_key@ && ms@[k].sig_valid(),
            e <= sap.elders@.len(),
            forall|x: int| 0 <= x < e ==> has_member_named(ms@, (#[trigger] sap.elders@[x]).name@),
        decreases sap.elders@.len() - e,
    {
        let mut k: usize = 0;
        let mut found = false;
        while k < ms.len()
            invariant
                e < sap.elders@.len(),
                k <= ms@.len(),
                !found ==> forall|y: int| 0 <= y < k ==> ms@[y].node.name@ != sap.elders@[e as int].name@,
                found ==> exists|y: int| 0 <= y < ms@.len() && #[trigger] ms@[y].node.name@ == sap.elders@[e as int].name@,
            decreases ms@.len() - k,
        {
            if !found && ms[k].node.name == sap.elders[e].name {
                found = true;
            }
            k = k + 1;
        }
        if !found {
            proof {
                if members_valid(ms@, *sap) {
                    let x = e as int;
                    assert(has_member_named(ms@, sap.elders@[x].name@));
                    let y = choose|k: int| 0 <= k < ms@.len() && #[trigger] ms@[k].node.name@ == sap.elders@[x].name@;
                    assert(ms@[y].node.name@ != sap.elders@[x].name@);
                }
            }
            return false;
        }
        e = e + 1;
    }
    true
}

/// Keys of a chain stay keys when edges are appended.
pub proof fn lemma_has_key_extends(g: Seq<u8>, es: Seq<ChainEdge>, more: Seq<ChainEdge>, k: Seq<u8>)
    requires
        es.len() <= more.len(),
        more.subrange(0, es.len() as int) == es,
        seq_has_key(g, es, k),
    ensures
        seq_has_key(g, more, k),
{
    if k != g {
        let j = choose|j: int| 0 <= j < es.len() && #[trigger] es[j].child@ == k;
        assert(more.subrange(0, es.len() as int)[j] == more[j]);
        assert(more[j].child@ == k);
    }
}

/// Two validated updates applied in either order give the same section tree
/// and the same chain (the same parent and signature for every key), when
/// both orders pass validation, our prefix stays `keep` throughout, and the
/// two SAPs are not different SAPs of one prefix and generation, nor is one's
/// prefix strictly over the other's while being `keep`.
pub proof fn lemma_updates_commute(
    tree: Map<Seq<bool>, SapView>,
    genesis: Seq<u8>,
    edges: Seq<ChainEdge>,
    u1: SectionTreeUpdate,
    u2: SectionTreeUpdate,
    keep: Seq<bool>,
)
    requires
        children_unique(edges),
        merge_edges(genesis, edges, u1.proof_chain.edges@).is_some(),
        merge_edges(genesis, merge_edges(genesis, edges, u1.proof_chain.edges@).unwrap(), u2.proof_chain.edges@).is_some(),
        merge_edges(genesis, edges, u2.proof_chain.edges@).is_some(),
        merge_edges(genesis, merge_edges(genesis, edges, u2.proof_chain.edges@).unwrap(), u1.proof_chain.edges@).is_some(),
        crate::section_tree::commute_ok(u1.signed_sap@, u2.signed_sap@, keep),
    ensures
        tree_after(tree_after(tree, u1.signed_sap@, keep), u2.signed_sap@, keep)
            == tree_after(tree_after(tree, u2.signed_sap@, keep), u1.signed_sap@, keep),
        edge_map(merge_edges(genesis, merge_edges(genesis, edges, u1.proof_chain.edges@).unwrap(), u2.proof_chain.edges@).unwrap())
            == edge_map(merge_edges(genesis, merge_edges(genesis, edges, u2.proof_chain.edges@).unwrap(), u1.proof_chain.edges@).unwrap()),
{
    lemma_tree_updates_commute(tree, u1.signed_sap@, u2.signed_sap@, keep);
    lemma_chain_merges_commute(genesis, edges, u1.proof_chain.edges@, u2.proof_chain.edges@);
}

/// A node's view of the network.
#[derive(Debug)]
pub struct NetworkKnowledge {
    pub chain: SectionChain,
    pub tree: SectionTree,
    pub our_prefix: Prefix,
    pub members: Vec<SignedNodeState>,
}

impl NetworkKnowledge {
    /// Well-formed: the chain and tree are, the tree holds our prefix, and
    /// every SAP in the tree has its key in the chain.
    pub open spec fn wf(&self) -> bool {
        &&& self.chain.wf()
        &&& self.tree.wf()
        &&& self.our_prefix.wf()
        &&& self.tree.view().dom().contains(self.our_prefix@)
        &&& forall|q: Seq<bool>| #[trigger] self.tree.view().dom().contains(q)
            ==> self.chain.has_key(self.tree.view()[q].section_key)
    }

    /// Our signed SAP.
    pub open spec fn our_sap(&self) -> SapView {
        self.tree.view()[self.our_prefix@]
    }

    /// Our current section key.
    pub open spec fn our_key(&self) -> Seq<u8> {
        self.our_sap().section_key
    }

    /// The checks that an update must pass: its SAP is well-formed, its proof
    /// chain merges into ours, the SAP's signature verifies under a key of the
    /// merged chain, its key is in the merged chain, and the members, if any,
    /// are signed by that key and include every elder.
    pub open spec fn update_valid(&self, u: SectionTreeUpdate, members: Option<Vec<SignedNodeState>>) -> bool {
        let g = self.chain.genesis@;
        let merged = merge_edges(g, self.chain.edges@, u.proof_chain.edges@).unwrap();
        &&& u.signed_sap.sap.wf()
        &&& merge_ok(g, self.chain.edges@, u.proof_chain.genesis@, u.proof_chain.edges@)
        &&& u.signed_sap.sig_valid()
        &&& seq_has_key(g, merged, u.signed_sap.sig.public_key@)
        &&& seq_has_key(g, merged, u.signed_sap.sap.section_key@)
        &&& (members.is_some() ==> members_valid(members.unwrap()@, u.signed_sap.sap))
    }

    /// Our chain's edges with those of the update's proof chain merged in.
    pub open spec fn merged_edges(&self, u: SectionTreeUpdate) -> Seq<ChainEdge> {
        merge_edges(self.chain.genesis@, self.chain.edges@, u.proof_chain.edges@).unwrap()
    }

    /// The tree takes the update's SAP.
    pub open spec fn accepts(&self, u: SectionTreeUpdate) -> bool {
        self.tree.would_accept(u.signed_sap.sap.prefix@, u.signed_sap.sap.generation)
    }

    /// Our prefix once the update's SAP is taken.
    pub open spec fn next(&self, u: SectionTreeUpdate, name: Seq<u8>) -> Seq<bool> {
        next_prefix(self.our_prefix@, u.signed_sap.sap.prefix@, name)
    }

    /// The update's members become ours: its SAP is taken and is our section's.
    pub open spec fn takes_members(&self, u: SectionTreeUpdate, members: Option<Vec<SignedNodeState>>, name: Seq<u8>) -> bool {
        self.accepts(u) && self.next(u, name) == u.signed_sap.sap.prefix@ && members.is_some()
    }

    /// Knowledge made of a chain and our signed SAP, which must be
    /// well-formed, verify under a key of the chain and have its own key in
    /// the chain.
    pub fn new(chain: SectionChain, signed_sap: SignedSap) -> (r: Result<NetworkKnowledge, KnowledgeError>)
        requires
            chain.wf(),
        ensures
            r.is_ok() <==> (signed_sap.sap.wf() && signed_sap.sig_valid() && chain.has_key(signed_sap.sig.public_key@)
                && chain.has_key(signed_sap.sap.section_key@)),
            r.is_ok() ==> r.unwrap().wf() && r.unwrap().our_sap() == signed_sap@
                && r.unwrap().chain.edges@ == chain.edges@ && r.unwrap().chain.genesis == chain.genesis,
    {
        if !signed_sap.sap.check_wf() {
            return Err(KnowledgeError::UntrustedUpdate);
        }
        if !signed_sap.verify_sig() || !chain.has_key_exec(&signed_sap.sig.public_key)
            || !chain.has_key_exec(&signed_sap.sap.section_key) {
            return Err(KnowledgeError::UntrustedUpdate);
        }
        let our_prefix = signed_sap.sap.prefix.copy();
        let mut tree = SectionTree::new();
        let keep = signed_sap.sap.prefix.copy();
        let ghost sv = signed_sap@;
        let ghost t0 = tree;
        proof {
            assert(t0.entries@.len() == 0);
            assert(!t0.has_prefix(sv.prefix));
            assert(t0.would_accept(sv.prefix, sv.generation));
        }
        let accepted = tree.insert(signed_sap, &keep);
        proof {
            assert(accepted);
            assert(t0.view().remove_keys(crate::section_tree::dropped_set(sv.prefix, keep@)) =~= Map::<Seq<bool>, SapView>::empty());
            assert(tree.view() =~= Map::<Seq<bool>, SapView>::empty().insert(our_prefix@, sv));
        }
        Ok(NetworkKnowledge { chain, tree, our_prefix, members: Vec::new() })
    }

    /// Checks `update` (and `members`, if given) and applies it: the proof
    /// chain is merged into ours, the SAP is offered to the tree, and when it
    /// is taken and covers our name under our prefix it becomes our section,
    /// with `members` as our members when they are given. `Ok(true)` when the
    /// chain grew or the tree changed; `UntrustedUpdate`, with nothing
    /// changed, when a check fails.
    pub fn update_knowledge_if_valid(
        &mut self,
        update: SectionTreeUpdate,
        members: Option<Vec<SignedNodeState>>,
        our_name: &XorName,
    ) -> (r: Result<bool, KnowledgeError>)
        requires
            old(self).wf(),
        ensures
            final(self).wf(),
            r.is_err() <==> !old(self).update_valid(update, members),
            r.is_err() ==> final(self).chain == old(self).chain && final(self).tree == old(self).tree
                && final(self).our_prefix == old(self).our_prefix && final(self).members == old(self).members,
            r.is_ok() ==> final(self).chain.genesis == old(self).chain.genesis,
            r.is_ok() ==> final(self).tree.view() == crate::section_tree::tree_after(old(self).tree.view(),
                update.signed_sap@, old(self).next(update, our_name@)),
            r.is_ok() ==> final(self).chain.edges@ == old(self).merged_edges(update),
            r.is_ok() ==> old(self).chain.edges@.len() <= final(self).chain.edges@.len()
                && final(self).chain.edges@.subrange(0, old(self).chain.edges@.len() as int) == old(self).chain.edges@,
            r.is_ok() && old(self).accepts(update) ==> final(self).tree.view() == old(self).tree.view().remove_keys(
                crate::section_tree::dropped_set(update.signed_sap.sap.prefix@, old(self).next(update, our_name@))).insert(
                update.signed_sap.sap.prefix@, update.signed_sap@),
            r.is_ok() && old(self).accepts(update) ==> final(self).our_prefix@ == old(self).next(update, our_name@),
            r.is_ok() && !old(self).accepts(update) ==> final(self).tree.view() == old(self).tree.view(),
            r.is_ok() && !old(self).accepts(update) ==> final(self).our_prefix@ == old(self).our_prefix@,
            r.is_ok() && old(self).takes_members(update, members, our_name@) ==> final(self).members@ == members.unwrap()@,
            r.is_ok() && !old(self).takes_members(update, members, our_name@) ==> final(self).members == old(self).members,
            r.is_ok() ==> r == Ok::<bool, KnowledgeError>(old(self).accepts(update)
                || old(self).merged_edges(update).len() > old(self).chain.edges@.len()),
    {
        let ghost g = self.chain.genesis@;
        if !update.signed_sap.sap.check_wf() {
            return Err(KnowledgeError::UntrustedUpdate);
        }
        let mut merged = self.chain.copy();
        if !merged.merge(&update.proof_chain) {
            return Err(KnowledgeError::UntrustedUpdate);
        }
        proof {
            merged.lemma_has_key_seq(update.signed_sap.sig.public_key@);
            merged.lemma_has_key_seq(update.signed_sap.sap.section_key@);
        }
        if !update.signed_sap.verify_sig() || !merged.has_key_exec(&update.signed_sap.sig.public_key)
            || !merged.has_key_exec(&update.signed_sap.sap.section_key) {
            return Err(KnowledgeError::UntrustedUpdate);
        }
        match &members {
            Some(ms) => {
                if !members_valid_exec(ms, &update.signed_sap.sap) {
                    return Err(KnowledgeError::UntrustedUpdate);
                }
            },
            None => {},
        }
        let ghost old_self = *self;
        proof {
            lemma_merge_monotone(g, self.chain.edges@, update.proof_chain.edges@);
        }
        let p = update.signed_sap.sap.prefix.copy();
        let takes_ours = p.is_extension_of(&self.our_prefix) && p.matches(our_name);
        let keep = if takes_ours { p.copy() } else { self.our_prefix.copy() };
        let ghost sv = update.signed_sap@;
        let old_len = self.chain.edges.len();
        let keep_is_p = keep == p;
        let accepted = self.tree.insert(update.signed_sap, &keep);
        let grew = merged.edges.len() > old_len;
        self.chain = merged;
        if accepted {
            self.our_prefix = keep;
            if keep_is_p {
                match members {
                    Some(ms) => {
                        self.members = ms;
                    },
                    None => {},
                }
            }
        }
        proof {
            assert(self.tree.view().dom().contains(self.our_prefix@));
            assert forall|q: Seq<bool>| #[trigger] self.tree.view().dom().contains(q)
                implies self.chain.has_key(self.tree.view()[q].section_key) by {
                self.chain.lemma_has_key_seq(self.tree.view()[q].section_key);
                if accepted && q == sv.prefix {
                } else {
                    assert(old_self.tree.view().dom().contains(q));
                    let k = old_self.tree.view()[q].section_key;
                    old_self.chain.lemma_has_key_seq(k);
                    lemma_has_key_extends(g, old_self.chain.edges@, self.chain.edges@, k);
                }
            }
        }
        Ok(accepted || grew)
    }

    /// What `update_knowledge_if_valid` would return, without changing
    /// anything: `UntrustedUpdate` when a check fails, else whether the chain
    /// would grow or the tree change.
    pub fn would_update(&self, update: &SectionTreeUpdate, members: &Option<Vec<SignedNodeState>>) -> (r: Result<bool, KnowledgeError>)
        requires
            self.wf(),
        ensures
            r.is_err() <==> !self.update_valid(*update, *members),
            r.is_ok() ==> r == Ok::<bool, KnowledgeError>(self.accepts(*update)
                || self.merged_edges(*update).len() > self.chain.edges@.len()),
    {
        if !update.signed_sap.sap.check_wf() {
            return Err(KnowledgeError::UntrustedUpdate);
        }
        let mut merged = self.chain.copy();
        if !merged.merge(&update.proof_chain) {
            return Err(KnowledgeError::UntrustedUpdate);
        }
        proof {
            merged.lemma_has_key_seq(update.signed_sap.sig.public_key@);
            merged.lemma_has_key_seq(update.signed_sap.sap.section_key@);
        }
        if !update.signed_sap.verify_sig() || !merged.has_key_exec(&update.signed_sap.sig.public_key)
            || !merged.has_key_exec(&update.signed_sap.sap.section_key) {
            return Err(KnowledgeError::UntrustedUpdate);
        }
        match members {
            Some(ms) => {
                if !members_valid_exec(ms, &update.signed_sap.sap) {
                    return Err(KnowledgeError::UntrustedUpdate);
                }
            },
            None => {},
        }
        let accepted = self.tree.would_accept_exec(&update.signed_sap.sap.prefix, update.signed_sap.sap.generation);
        Ok(accepted || merged.edges.len() > self.chain.edges.len())
    }

    /// Whether this knowledge is well-formed.
    pub fn check_wf(&self) -> (r: bool)
        ensures
            r == self.wf(),
    {
        if !self.chain.check_wf() || !self.tree.check_wf() || self.our_prefix.bit_count() > crate::xor_space::NAME_BITS {
            return false;
        }
        if self.tree.find(&self.our_prefix).is_none() {
            return false;
        }
        let mut i: usize = 0;
        while i < self.tree.entries.len()
            invariant
                self.chain.wf(),
                self.tree.wf(),
                i <= self.tree.entries@.len(),
                forall|k: int| 0 <= k < i ==> self.chain.has_key((#[trigger] self.tree.entries@[k]).sap.section_key@),
            decreases self.tree.entries@.len() - i,
        {
            if !self.chain.has_key_exec(&self.tree.entries[i].sap.section_key) {
                proof {
                    self.tree.lemma_pos_pub(i as int);
                }
                return false;
            }
            i = i + 1;
        }
        proof {
            assert forall|q: Seq<bool>| #[trigger] self.tree.view().dom().contains(q)
                implies self.chain.has_key(self.tree.view()[q].section_key) by {
                let k = self.tree.pos(q);
                assert(self.tree.entries@[k].sap.prefix@ == q);
                self.tree.lemma_pos_pub(k);
            }
        }
        true
    }

    /// Our prefix.
    pub fn prefix(&self) -> (r: Prefix)
        ensures
            r@ == self.our_prefix@,
    {
        self.our_prefix.copy()
    }

    /// Our signed SAP.
    pub fn signed_sap(&self) -> (r: SignedSap)
        requires
            self.wf(),
        ensures
            r@ == self.our_sap(),
            r.sap.wf(),
    {
        self.tree.get_signed(&self.our_prefix).unwrap().copy()
    }

    /// Our current section key.
    pub fn section_key(&self) -> (r: SectionKey)
        requires
            self.wf(),
        ensures
            r@ == self.our_key(),
    {
        self.tree.get_signed(&self.our_prefix).unwrap().sap.section_key
    }

    /// The genesis key.
    pub fn genesis_key(&self) -> (r: SectionKey)
        ensures
            r@ == self.chain.genesis@,
    {
        self.chain.genesis
    }

    /// Our elders.
    pub fn elders(&self) -> (r: Vec<Peer>)
        requires
            self.wf(),
        ensures
            r@ == self.our_sap().elders,
    {
        self.tree.get_signed(&self.our_prefix).unwrap().sap.copy().elders
    }

    /// The members of our section.
    pub fn members(&self) -> (r: &Vec<SignedNodeState>)
        ensures
            r@ == self.members@,
    {
        &self.members
    }

    /// Whether `name` is a member of our section.
    pub fn is_member(&self, name: &XorName) -> (r: bool)
        ensures
            r == exists|i: int| 0 <= i < self.members@.len() && #[trigger] self.members@[i].node.name@ == name@,
    {
        let mut i: usize = 0;
        while i < self.members.len()
            invariant
                i <= self.members@.len(),
                forall|j: int| 0 <= j < i ==> self.members@[j].node.name@ != name@,
            decreases self.members@.len() - i,
        {
            if self.members[i].node.name == *name {
                return true;
            }
            i = i + 1;
        }
        false
    }

    /// The chain from the genesis key to our current key.
    pub fn section_chain(&self) -> (r: SectionChain)
        requires
            self.wf(),
        ensures
            r.wf(),
            r.genesis@ == self.chain.genesis@,
            r.last_key() == self.our_key(),
            r.edges@ == self.chain.segment(self.chain.genesis@, self.our_key()),
    {
        let key = self.section_key();
        self.chain.get_proof_chain(&self.chain.genesis, &key).unwrap()
    }

    /// The chain from `key` to our current key, when `key` lies on the path
    /// from the genesis key to it.
    pub fn get_proof_chain_to_current_section(&self, key: &SectionKey) -> (r: Option<SectionChain>)
        requires
            self.wf(),
        ensures
            r.is_some() <==> self.chain.on_path(key@, self.our_key()),
            r.is_some() ==> r.unwrap().wf() && r.unwrap().genesis@ == key@ && r.unwrap().last_key() == self.our_key()
                && r.unwrap().edges@ == self.chain.segment(key@, self.our_key()),
    {
        let ours = self.section_key();
        self.chain.get_proof_chain(key, &ours)
    }

    /// The SAP whose prefix is the longest to match `name`, with the chain
    /// from the genesis key to its key; `None` when no prefix matches.
    pub fn closest_signed_sap_with_chain(&self, name: &XorName) -> (r: Option<(SignedSap, SectionChain)>)
        requires
            self.wf(),
        ensures
            r.is_none() <==> forall|j: int| 0 <= j < self.tree.entries@.len()
                ==> !prefix_matches(#[trigger] self.tree.entries@[j].sap.prefix@, name@),
            r.is_some() ==> exists|i: int| self.tree.is_closest(i, name@) && #[trigger] self.tree.entries@[i]@ == r.unwrap().0@,
            r.is_some() ==> r.unwrap().0.sap.wf(),
            r.is_some() ==> r.unwrap().1.wf() && r.unwrap().1.genesis@ == self.chain.genesis@
                && r.unwrap().1.last_key() == r.unwrap().0.sap.section_key@,
    {
        match self.tree.closest(name) {
            None => None,
            Some(i) => {
                let s = self.tree.entries[i].copy();
                proof {
                    assert(self.tree.entries@[i as int].sap.wf());
                    let q = self.tree.entries@[i as int].sap.prefix@;
                    self.tree.lemma_pos_pub(i as int);
                    assert(self.tree.view().dom().contains(q));
                }
                let chain = self.chain.get_proof_chain(&self.chain.genesis, &s.sap.section_key).unwrap();
                Some((s, chain))
            },
        }
    }
}

} // verus!
