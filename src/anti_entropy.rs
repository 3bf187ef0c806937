//! The anti-entropy engine: finds where a message's destination disagrees
//! with our knowledge, builds the response that repairs the sender's view, and
//! decides what to resend when such a response comes back to us.
use vstd::prelude::*;
use crate::keys::{key_name, SectionKey};
use crate::network_knowledge::{NetworkKnowledge, SectionTreeUpdate};
use crate::sap::{Peer, SignedNodeState, SignedSap};
use crate::wire::{bytes_wf, lemma_wire_round_trip, view_of_bytes, wire_bytes, MsgKind, WireError, WireMsg};
use crate::xor_space::{lemma_xor_cmp_flip, lemma_xor_cmp_transitive, prefix_matches, xor_cmp, XorName};

verus! {

/// The three anti-entropy messages.
#[derive(Clone, Debug)]
pub enum AntiEntropyKind {
    /// Unsolicited: our current SAP, chain and members.
    Update { members: Vec<SignedNodeState> },
    /// The sender used an outdated or unknown key for our section: resend `bounced_msg`.
    Retry { bounced_msg: Vec<u8> },
    /// The name is not ours: resend `bounced_msg` to the section of the enclosed SAP.
    Redirect { bounced_msg: Vec<u8> },
}

/// Errors of the anti-entropy engine.
#[derive(Clone, Copy, Debug, PartialEq, Eq, Structural)]
pub enum AeError {
    /// No known section is closer to the destination name than ours.
    NoMatchingSection,
    /// An update failed its checks.
    UntrustedUpdate,
    /// A bounced message could not be read.
    InvalidBouncedMsg(WireError),
    /// We were a member of our section before an update and are not after it.
    RejoinRequired,
}

/// What to do after handling an anti-entropy message.
#[derive(Debug)]
pub struct AeOutcome {
    /// Our knowledge changed.
    pub updated: bool,
    /// The sender's probe issue is to be untracked (it answered with an update).
    pub untrack_sender: bool,
    /// A message to send again, and to whom.
    pub resend: Option<(WireMsg, Peer)>,
}

/// `p` is the peer of `elders` closest to `target`.
pub open spec fn is_closest_peer(elders: Seq<Peer>, target: Seq<u8>, p: Peer) -> bool {
    &&& exists|i: int| 0 <= i < elders.len() && #[trigger] elders[i] == p
    &&& forall|j: int| 0 <= j < elders.len() ==> xor_cmp(target, p.name@, (#[trigger] elders[j]).name@) <= 0
}

/// The elder of `elders` whose name is closest to `target`; `None` when there are none.
pub fn closest_elder(elders: &Vec<Peer>, target: &XorName) -> (r: Option<Peer>)
    ensures
        r.is_none() <==> elders@.len() == 0,
        r.is_some() ==> is_closest_peer(elders@, target@, r.unwrap()),
{
    if elders.len() == 0 {
        return None;
    }
    let mut best: Peer = elders[0];
    let ghost mut bi: int = 0;
    proof {
        lemma_xor_cmp_flip(target@, best.name@, best.name@, 0);
    }
    let mut i: usize = 1;
    while i < elders.len()
        invariant
            1 <= i <= elders@.len(),
            0 <= bi < elders@.len(),
            elders@[bi] == best,
            forall|j: int| 0 <= j < i ==> xor_cmp(target@, best.name@, (#[trigger] elders@[j]).name@) <= 0,
        decreases elders@.len() - i,
    {
        let c = elders[i];
        if target.cmp_distance(&c.name, &best.name) < 0 {
            proof {
                assert forall|j: int| 0 <= j < i + 1 implies xor_cmp(target@, c.name@, (#[trigger] elders@[j]).name@) <= 0 by {
                    if j < i {
                        lemma_xor_cmp_transitive(target@, c.name@, best.name@, elders@[j].name@, 0);
                    } else {
                        lemma_xor_cmp_flip(target@, c.name@, c.name@, 0);
                    }
                }
                bi = i as int;
            }
            best = c;
        } else {
            proof {
                lemma_xor_cmp_flip(target@, c.name@, best.name@, 0);
            }
        }
        i = i + 1;
    }
    Some(best)
}

/// The update we send to bring a peer up to date: our signed SAP with the
/// chain from the genesis key to our key.
pub fn generate_ae_section_tree_update(nk: &NetworkKnowledge) -> (r: SectionTreeUpdate)
    requires
        nk.wf(),
    ensures
        r.signed_sap@ == nk.our_sap(),
        r.signed_sap.sap.wf(),
        r.proof_chain.wf(),
        r.proof_chain.last_key() == nk.our_key(),
        r.proof_chain.genesis@ == nk.chain.genesis@,
        r.proof_chain.edges@ == nk.chain.segment(nk.chain.genesis@, nk.our_key()),
{
    let signed_sap = nk.signed_sap();
    let proof_chain = nk.section_chain();
    SectionTreeUpdate { signed_sap, proof_chain }
}

/// The outcome of an entropy check of `w` against `nk` is `r`.
///
/// A destination name outside our prefix gets a `Redirect` carrying the SAP
/// with the longest prefix that matches the name, or `NoMatchingSection` when
/// none does; a name inside our prefix with a key other than ours gets a
/// `Retry` carrying our SAP and our chain; our prefix and our key need
/// nothing. No other error comes. The bounced bytes are the message's own
/// bytes, and every proof chain sent is well-formed, starts at the genesis key
/// and ends at the key of the SAP it comes with.
pub open spec fn entropy_result(w: WireMsg, nk: NetworkKnowledge, r: Result<Option<(SectionTreeUpdate, AntiEntropyKind)>, AeError>) -> bool {
    &&& r == Err::<Option<(SectionTreeUpdate, AntiEntropyKind)>, AeError>(AeError::NoMatchingSection) <==> (
        !prefix_matches(nk.our_prefix@, w@.dst_name) && forall|j: int| 0 <= j < nk.tree.entries@.len()
            ==> !prefix_matches(#[trigger] nk.tree.entries@[j].sap.prefix@, w@.dst_name))
    &&& r == Ok::<Option<(SectionTreeUpdate, AntiEntropyKind)>, AeError>(None) <==> (
        prefix_matches(nk.our_prefix@, w@.dst_name) && w@.dst_key == nk.our_key())
    &&& r.is_err() ==> r == Err::<Option<(SectionTreeUpdate, AntiEntropyKind)>, AeError>(AeError::NoMatchingSection)
    &&& (r.is_ok() && r.unwrap().is_some()) ==> {
        let (u, kind) = r.unwrap().unwrap();
        &&& u.proof_chain.wf()
        &&& u.proof_chain.last_key() == u.signed_sap.sap.section_key@
        &&& u.proof_chain.genesis@ == nk.chain.genesis@
        &&& !prefix_matches(nk.our_prefix@, w@.dst_name) ==> {
            &&& kind matches AntiEntropyKind::Redirect { bounced_msg } && bounced_msg@ == wire_bytes(w@)
            &&& exists|i: int| nk.tree.is_closest(i, w@.dst_name) && #[trigger] nk.tree.entries@[i]@ == u.signed_sap@
        }
        &&& prefix_matches(nk.our_prefix@, w@.dst_name) ==> {
            &&& kind matches AntiEntropyKind::Retry { bounced_msg } && bounced_msg@ == wire_bytes(w@)
            &&& u.signed_sap@ == nk.our_sap()
            &&& u.proof_chain.edges@ == nk.chain.segment(nk.chain.genesis@, nk.our_key())
        }
    }
}

/// Checks a message for entropy against our knowledge (see `entropy_result`).
pub fn check_for_entropy(wire_msg: &WireMsg, nk: &NetworkKnowledge) -> (r: Result<Option<(SectionTreeUpdate, AntiEntropyKind)>, AeError>)
    requires
        nk.wf(),
    ensures
        entropy_result(*wire_msg, *nk, r),
{
    let dst = wire_msg.dst();
    if !nk.our_prefix.matches(&dst.name) {
        return match nk.closest_signed_sap_with_chain(&dst.name) {
            Some((signed_sap, proof_chain)) => {
                let bounced_msg = wire_msg.serialize();
                Ok(Some((SectionTreeUpdate { signed_sap, proof_chain }, AntiEntropyKind::Redirect { bounced_msg })))
            },
            None => Err(AeError::NoMatchingSection),
        };
    }
    let our_key = nk.section_key();
    if dst.section_key == our_key {
        return Ok(None);
    }
    let update = generate_ae_section_tree_update(nk);
    let bounced_msg = wire_msg.serialize();
    Ok(Some((update, AntiEntropyKind::Retry { bounced_msg })))
}

/// The members that an anti-entropy message carries: those of an `Update`.
pub open spec fn members_of(kind: AntiEntropyKind) -> Option<Vec<SignedNodeState>> {
    match kind {
        AntiEntropyKind::Update { members } => Some(members),
        _ => None,
    }
}

/// What is resent after an anti-entropy message `kind` from `sender` that
/// carried `sap`, and to whom:
/// - after an `Update`, nothing;
/// - after a `Redirect` whose SAP has no elders, nothing;
/// - bounced bytes that do not read as a message give `InvalidBouncedMsg`;
/// - a bounced message that is not a node message, or whose destination key
///   is already the key of `sap`, is dropped;
/// - otherwise the bounced message goes back to `sender` after a `Retry`, and
///   to the elder of `sap` closest to the name of its key after a `Redirect`.
pub open spec fn resend_spec(sap: SignedSap, kind: AntiEntropyKind, sender: Peer, r: Result<Option<(WireMsg, Peer)>, AeError>) -> bool {
    match kind {
        AntiEntropyKind::Update { .. } => r == Ok::<Option<(WireMsg, Peer)>, AeError>(None),
        AntiEntropyKind::Retry { bounced_msg } => bounced_spec(sap, bounced_msg@, r, |p: Peer| p == sender),
        AntiEntropyKind::Redirect { bounced_msg } => if sap.sap.elders@.len() == 0 {
            r == Ok::<Option<(WireMsg, Peer)>, AeError>(None)
        } else {
            bounced_spec(sap, bounced_msg@, r, |p: Peer| is_closest_peer(sap.sap.elders@, key_name(sap.sap.section_key@), p))
        },
    }
}

/// The part of `resend_spec` that reads the bounced bytes `b`; `target` says
/// who may receive the resent message.
pub open spec fn bounced_spec(sap: SignedSap, b: Seq<u8>, r: Result<Option<(WireMsg, Peer)>, AeError>, target: spec_fn(Peer) -> bool) -> bool {
    if !bytes_wf(b) {
        r.is_err() && r.unwrap_err() matches AeError::InvalidBouncedMsg(_)
    } else if view_of_bytes(b).kind_tag != 0 || view_of_bytes(b).dst_key == sap.sap.section_key@ {
        r == Ok::<Option<(WireMsg, Peer)>, AeError>(None)
    } else {
        r.is_ok() && r.unwrap().is_some() && r.unwrap().unwrap().0@ == view_of_bytes(b) && target(r.unwrap().unwrap().1)
    }
}

fn resend_bounced(sap: &SignedSap, bounced_msg: &Vec<u8>, target: Peer) -> (r: Result<Option<(WireMsg, Peer)>, AeError>)
    ensures
        !bytes_wf(bounced_msg@) ==> r.is_err() && r.unwrap_err() matches AeError::InvalidBouncedMsg(_),
        bytes_wf(bounced_msg@) && (view_of_bytes(bounced_msg@).kind_tag != 0
            || view_of_bytes(bounced_msg@).dst_key == sap.sap.section_key@) ==> r == Ok::<Option<(WireMsg, Peer)>, AeError>(None),
        bytes_wf(bounced_msg@) && !(view_of_bytes(bounced_msg@).kind_tag != 0
            || view_of_bytes(bounced_msg@).dst_key == sap.sap.section_key@) ==> r.is_ok() && r.unwrap().is_some()
            && r.unwrap().unwrap().0@ == view_of_bytes(bounced_msg@) && r.unwrap().unwrap().1 == target,
{
    let msg = match WireMsg::deserialize(bounced_msg.as_slice()) {
        Ok(m) => m,
        Err(e) => {
            return Err(AeError::InvalidBouncedMsg(e));
        },
    };
    let is_node = match msg.kind {
        MsgKind::Node { .. } => true,
        _ => false,
    };
    if !is_node {
        return Ok(None);
    }
    if msg.dst.section_key == sap.sap.section_key {
        return Ok(None);
    }
    Ok(Some((msg, target)))
}

/// Decides what to resend after an anti-entropy message (see `resend_spec`).
pub fn ae_resend_target(sap: &SignedSap, kind: &AntiEntropyKind, sender: &Peer) -> (r: Result<Option<(WireMsg, Peer)>, AeError>)
    ensures
        resend_spec(*sap, *kind, *sender, r),
{
    match kind {
        AntiEntropyKind::Update { .. } => Ok(None),
        AntiEntropyKind::Retry { bounced_msg } => resend_bounced(sap, bounced_msg, *sender),
        AntiEntropyKind::Redirect { bounced_msg } => {
            let target_name = sap.sap.section_key.name();
            match closest_elder(&sap.sap.elders, &target_name) {
                Some(elder) => resend_bounced(sap, bounced_msg, elder),
                None => Ok(None),
            }
        },
    }
}

fn copy_members(ms: &Vec<SignedNodeState>) -> (r: Vec<SignedNodeState>)
    ensures
        r@ == ms@,
{
    let mut out: Vec<SignedNodeState> = Vec::new();
    let mut i: usize = 0;
    while i < ms.len()
        invariant
            i <= ms@.len(),
            out@ == ms@.subrange(0, i as int),
        decreases ms@.len() - i,
    {
        out.push(ms[i]);
        i = i + 1;
    }
    assert(out@ =~= ms@);
    out
}

/// `after` is `before` with a valid `update` applied by a node named `name`:
/// the proof chain merged in (old edges kept, in place), the SAP offered to
/// the tree, our prefix and members moved to it when it is taken and is ours,
/// and all else as it was.
pub open spec fn knowledge_after(
    before: NetworkKnowledge,
    after: NetworkKnowledge,
    update: SectionTreeUpdate,
    members: Option<Vec<SignedNodeState>>,
    name: Seq<u8>,
) -> bool {
    &&& after.chain.genesis == before.chain.genesis
    &&& after.chain.edges@ == before.merged_edges(update)
    &&& before.chain.edges@.len() <= after.chain.edges@.len()
    &&& after.chain.edges@.subrange(0, before.chain.edges@.len() as int) == before.chain.edges@
    &&& after.tree.view() == crate::section_tree::tree_after(before.tree.view(), update.signed_sap@, before.next(update, name))
    &&& before.accepts(update) ==> after.our_prefix@ == before.next(update, name)
    &&& !before.accepts(update) ==> after.our_prefix@ == before.our_prefix@ && after.tree.view() == before.tree.view()
    &&& before.takes_members(update, members, name) ==> after.members@ == members.unwrap()@
    &&& !before.takes_members(update, members, name) ==> after.members == before.members
}

/// Our name is among the members.
pub open spec fn is_member_spec(nk: NetworkKnowledge, name: Seq<u8>) -> bool {
    exists|i: int| 0 <= i < nk.members@.len() && #[trigger] nk.members@[i].node.name@ == name
}

/// Handles an anti-entropy message from `sender`: applies its update to our
/// knowledge, fails with `RejoinRequired` when that removed us from our
/// section, and otherwise says what to resend (see `resend_spec`).
pub fn handle_anti_entropy_msg(
    nk: &mut NetworkKnowledge,
    update: SectionTreeUpdate,
    kind: AntiEntropyKind,
    sender: Peer,
    our_name: &XorName,
) -> (r: Result<AeOutcome, AeError>)
    requires
        old(nk).wf(),
    ensures
        final(nk).wf(),
        r == Err::<AeOutcome, AeError>(AeError::UntrustedUpdate) <==> !old(nk).update_valid(update, members_of(kind)),
        r == Err::<AeOutcome, AeError>(AeError::UntrustedUpdate) ==> final(nk).chain == old(nk).chain
            && final(nk).tree == old(nk).tree && final(nk).our_prefix == old(nk).our_prefix
            && final(nk).members == old(nk).members,
        old(nk).update_valid(update, members_of(kind)) ==> knowledge_after(*old(nk), *final(nk), update, members_of(kind), our_name@),
        old(nk).update_valid(update, members_of(kind)) ==> ({
            let updated = old(nk).accepts(update) || old(nk).merged_edges(update).len() > old(nk).chain.edges@.len();
            let removed = updated && is_member_spec(*old(nk), our_name@) && !is_member_spec(*final(nk), our_name@);
            &&& removed ==> r == Err::<AeOutcome, AeError>(AeError::RejoinRequired)
            &&& !removed ==> match r {
                Ok(o) => o.updated == updated && o.untrack_sender == (kind matches AntiEntropyKind::Update { .. })
                    && resend_spec(update.signed_sap, kind, sender, Ok(o.resend)),
                Err(e) => resend_spec(update.signed_sap, kind, sender, Err(e)),
            }
        }),
{
    let sap = update.signed_sap.copy();
    let members = match &kind {
        AntiEntropyKind::Update { members } => Some(copy_members(members)),
        _ => None,
    };
    let was_member = nk.is_member(our_name);
    let updated = match nk.update_knowledge_if_valid(update, members, our_name) {
        Ok(u) => u,
        Err(_) => {
            return Err(AeError::UntrustedUpdate);
        },
    };
    if updated && was_member && !nk.is_member(our_name) {
        return Err(AeError::RejoinRequired);
    }
    let untrack_sender = match &kind {
        AntiEntropyKind::Update { .. } => true,
        _ => false,
    };
    let resend = ae_resend_target(&sap, &kind, &sender);
    proof {
        assert(resend_spec(sap, kind, sender, resend) == resend_spec(update.signed_sap, kind, sender, resend));
    }
    match resend {
        Ok(resend) => Ok(AeOutcome { updated, untrack_sender, resend }),
        Err(e) => Err(e),
    }
}

/// An anti-entropy message to send to several peers.
#[derive(Debug)]
pub struct AeBroadcast {
    pub recipients: Vec<Peer>,
    /// The section key the message is addressed with.
    pub dst_key: SectionKey,
    pub update: SectionTreeUpdate,
    pub kind: AntiEntropyKind,
}

/// `b` is an `Update` for `recipients`, addressed with `dst_key`, carrying our
/// signed SAP, our chain from the genesis key and our members.
pub open spec fn broadcast_spec(nk: NetworkKnowledge, b: AeBroadcast, recipients: Seq<Peer>, dst_key: Seq<u8>) -> bool {
    &&& b.recipients@ == recipients
    &&& b.dst_key@ == dst_key
    &&& b.update.signed_sap@ == nk.our_sap()
    &&& b.update.proof_chain.wf()
    &&& b.update.proof_chain.genesis@ == nk.chain.genesis@
    &&& b.update.proof_chain.last_key() == nk.our_key()
    &&& b.update.proof_chain.edges@ == nk.chain.segment(nk.chain.genesis@, nk.our_key())
    &&& b.kind matches AntiEntropyKind::Update { members } && members@ == nk.members@
}

/// The peer of a member.
pub open spec fn member_peer(m: SignedNodeState) -> Peer {
    Peer { name: m.node.name, addr: m.node.addr }
}

/// The peers of the members not named `name`, in order.
pub open spec fn others(ms: Seq<SignedNodeState>, name: Seq<u8>) -> Seq<Peer>
    decreases ms.len(),
{
    if ms.len() == 0 {
        Seq::empty()
    } else if ms.last().node.name@ != name {
        others(ms.drop_last(), name).push(member_peer(ms.last()))
    } else {
        others(ms.drop_last(), name)
    }
}

/// The peers of `elders` whose names are not among `prev`'s, in order.
pub open spec fn promoted(elders: Seq<Peer>, prev: Seq<Peer>) -> Seq<Peer>
    decreases elders.len(),
{
    if elders.len() == 0 {
        Seq::empty()
    } else if exists|j: int| 0 <= j < prev.len() && #[trigger] prev[j].name@ == elders.last().name@ {
        promoted(elders.drop_last(), prev)
    } else {
        promoted(elders.drop_last(), prev).push(elders.last())
    }
}

/// The key a peer most likely knows us by after our key changed: the parent
/// of our current key, or the genesis key when it has none.
pub open spec fn previous_key(nk: NetworkKnowledge) -> Seq<u8> {
    if nk.chain.parents().dom().contains(nk.our_key()) {
        nk.chain.parents()[nk.our_key()]
    } else {
        nk.chain.genesis@
    }
}

/// An `Update` with our SAP, our chain and our members, for `recipients`,
/// addressed with `section_key`.
pub fn send_ae_update_to_nodes(nk: &NetworkKnowledge, recipients: Vec<Peer>, section_key: SectionKey) -> (r: AeBroadcast)
    requires
        nk.wf(),
    ensures
        broadcast_spec(*nk, r, recipients@, section_key@),
{
    let update = generate_ae_section_tree_update(nk);
    let members = copy_members(&nk.members);
    AeBroadcast { recipients, dst_key: section_key, update, kind: AntiEntropyKind::Update { members } }
}

/// The reply to an anti-entropy probe from `sender` that names
/// `section_key`: an `Update` addressed with that key when we are an elder,
/// nothing otherwise (adults are not probed for health).
pub fn ae_probe_reply(nk: &NetworkKnowledge, is_elder: bool, sender: Peer, section_key: SectionKey) -> (r: Option<AeBroadcast>)
    requires
        nk.wf(),
    ensures
        r.is_some() == is_elder,
        r.is_some() ==> broadcast_spec(*nk, r.unwrap(), seq![sender], section_key@),
{
    if !is_elder {
        return None;
    }
    let mut recipients: Vec<Peer> = Vec::new();
    recipients.push(sender);
    proof {
        assert(recipients@ =~= seq![sender]);
    }
    Some(send_ae_update_to_nodes(nk, recipients, section_key))
}

/// The answer of the section to our request to join.
#[derive(Clone, Copy, Debug, PartialEq, Eq, Structural)]
pub enum JoinResponse {
    Approved,
    Rejected,
}

/// A rejected join sends the node back to join afresh.
pub fn handle_join_response(response: JoinResponse) -> (r: Result<(), AeError>)
    ensures
        response == JoinResponse::Rejected <==> r == Err::<(), AeError>(AeError::RejoinRequired),
        response == JoinResponse::Approved <==> r.is_ok(),
{
    match response {
        JoinResponse::Approved => Ok(()),
        JoinResponse::Rejected => Err(AeError::RejoinRequired),
    }
}

/// An `Update` for every member of our section but us, addressed with the key
/// before our current one; `None` when there is no such member.
pub fn send_ae_update_to_our_section(nk: &NetworkKnowledge, our_name: &XorName) -> (r: Option<AeBroadcast>)
    requires
        nk.wf(),
    ensures
        r.is_none() <==> others(nk.members@, our_name@).len() == 0,
        r.is_some() ==> broadcast_spec(*nk, r.unwrap(), others(nk.members@, our_name@), previous_key(*nk)),
{
    let mut recipients: Vec<Peer> = Vec::new();
    let mut i: usize = 0;
    while i < nk.members.len()
        invariant
            i <= nk.members@.len(),
            recipients@ == others(nk.members@.subrange(0, i as int), our_name@),
        decreases nk.members@.len() - i,
    {
        let m = nk.members[i];
        proof {
            assert(nk.members@.subrange(0, i + 1).drop_last() =~= nk.members@.subrange(0, i as int));
        }
        if !(m.node.name == *our_name) {
            recipients.push(Peer { name: m.node.name, addr: m.node.addr });
        }
        i = i + 1;
    }
    proof {
        assert(nk.members@.subrange(0, nk.members@.len() as int) =~= nk.members@);
    }
    if recipients.len() == 0 {
        return None;
    }
    let leaf = nk.section_key();
    let prev = match nk.chain.get_parent_key(&leaf) {
        Some(p) => p,
        None => nk.genesis_key(),
    };
    Some(send_ae_update_to_nodes(nk, recipients, prev))
}

/// After a split: an `Update` for the elders of our sibling section that were
/// not elders before the split, addressed with the key from before the split.
/// `None` when the sibling's SAP is unknown or no elder was promoted.
pub fn send_updates_to_sibling_section(prev: &NetworkKnowledge) -> (r: Option<AeBroadcast>)
    requires
        prev.wf(),
    ensures
        r.is_none() <==> (!prev.tree.view().dom().contains(crate::xor_space::sibling_of(prev.our_prefix@))
            || promoted(prev.tree.view()[crate::xor_space::sibling_of(prev.our_prefix@)].elders, prev.our_sap().elders).len() == 0),
        r.is_some() ==> broadcast_spec(*prev, r.unwrap(), promoted(
            prev.tree.view()[crate::xor_space::sibling_of(prev.our_prefix@)].elders, prev.our_sap().elders), prev.our_key()),
{
    let sibling_prefix = prev.our_prefix.sibling();
    let sibling = match prev.tree.get_signed(&sibling_prefix) {
        Some(s) => s,
        None => {
            return None;
        },
    };
    let prev_elders = prev.elders();
    let elders = &sibling.sap.elders;
    let mut recipients: Vec<Peer> = Vec::new();
    let mut i: usize = 0;
    while i < elders.len()
        invariant
            i <= elders@.len(),
            recipients@ == promoted(elders@.subrange(0, i as int), prev_elders@),
        decreases elders@.len() - i,
    {
        let e = elders[i];
        proof {
            assert(elders@.subrange(0, i + 1).drop_last() =~= elders@.subrange(0, i as int));
            assert(elders@.subrange(0, i + 1).last() == e);
        }
        let mut j: usize = 0;
        let mut was_elder = false;
        while j < prev_elders.len()
            invariant
                j <= prev_elders@.len(),
                was_elder <==> exists|k: int| 0 <= k < j && #[trigger] prev_elders@[k].name@ == e.name@,
            decreases prev_elders@.len() - j,
        {
            if prev_elders[j].name == e.name {
                was_elder = true;
            }
            j = j + 1;
        }
        if !was_elder {
            recipients.push(e);
        }
        i = i + 1;
    }
    proof {
        assert(elders@.subrange(0, elders@.len() as int) =~= elders@);
    }
    if recipients.len() == 0 {
        return None;
    }
    let key = prev.section_key();
    Some(send_ae_update_to_nodes(prev, recipients, key))
}

/// A message that is a join request or an anti-entropy message itself is
/// handled without an entropy check.
pub open spec fn skips_entropy_check(kind: MsgKind) -> bool {
    kind matches MsgKind::Node { is_join, is_ae, .. } && (is_join || is_ae)
}

/// The entropy check of an inbound message: join requests and anti-entropy
/// messages pass unchecked, all others go through `check_for_entropy`.
pub fn check_inbound_for_entropy(wire_msg: &WireMsg, nk: &NetworkKnowledge) -> (r: Result<Option<(SectionTreeUpdate, AntiEntropyKind)>, AeError>)
    requires
        nk.wf(),
    ensures
        skips_entropy_check(wire_msg.kind) ==> r == Ok::<Option<(SectionTreeUpdate, AntiEntropyKind)>, AeError>(None),
        !skips_entropy_check(wire_msg.kind) ==> entropy_result(*wire_msg, *nk, r),
{
    let skip = match wire_msg.kind {
        MsgKind::Node { is_join, is_ae, .. } => is_join || is_ae,
        _ => false,
    };
    if skip {
        return Ok(None);
    }
    check_for_entropy(wire_msg, nk)
}

/// What to do about entropy found in a message from `origin`.
#[derive(Debug)]
pub enum AeAction {
    /// Note that the node `name` is out of date.
    TrackNodeIssue { name: XorName },
    /// Send an anti-entropy message to a node, on its open stream or on a
    /// fresh connection, in answer to the message `correlation_id`.
    SendNodeAe { recipient: Peer, correlation_id: [u8; 16], update: SectionTreeUpdate, kind: AntiEntropyKind, on_stream: bool },
    /// Send an anti-entropy response to a client on its stream, with the
    /// bytes of its message `correlation_id`.
    SendClientAe { recipient: Peer, correlation_id: [u8; 16], update: SectionTreeUpdate, bounced_msg: Vec<u8> },
}

/// `r` are the actions for an anti-entropy response (`update`, `kind`) to
/// `w` from `origin`: a client gets the response on its stream (and nothing
/// without one); a node is noted as out of date and gets the response on its
/// stream or on a fresh connection; a client data response needs none.
pub open spec fn ae_actions_spec(w: WireMsg, origin: Peer, update: SectionTreeUpdate, kind: AntiEntropyKind, has_stream: bool, r: Seq<AeAction>) -> bool {
    &&& w.kind matches MsgKind::Client { .. } ==> (if has_stream {
        r.len() == 1 && (r[0] matches AeAction::SendClientAe { recipient, correlation_id, update: u, bounced_msg }
            && recipient == origin && correlation_id@ == w@.msg_id && u == update && bounced_msg@ == wire_bytes(w@))
    } else {
        r.len() == 0
    })
    &&& (w.kind matches MsgKind::Node { .. } || w.kind matches MsgKind::NodeDataResponse { .. }) ==> (
        r.len() == 2 && (r[0] matches AeAction::TrackNodeIssue { name } && name == origin.name)
        && (r[1] matches AeAction::SendNodeAe { recipient, correlation_id, update: u, kind: k, on_stream }
            && recipient == origin && correlation_id@ == w@.msg_id && u == update && k == kind && on_stream == has_stream))
    &&& w.kind matches MsgKind::ClientDataResponse { .. } ==> r.len() == 0
}

/// The actions for an anti-entropy response to a message (see `ae_actions_spec`).
pub fn generate_anti_entropy_cmds(
    wire_msg: &WireMsg,
    origin: Peer,
    update: SectionTreeUpdate,
    kind: AntiEntropyKind,
    has_stream: bool,
) -> (r: Vec<AeAction>)
    ensures
        ae_actions_spec(*wire_msg, origin, update, kind, has_stream, r@),
{
    let mut r: Vec<AeAction> = Vec::new();
    let correlation_id = wire_msg.msg_id();
    match wire_msg.kind {
        MsgKind::Client { .. } => {
            if has_stream {
                let bounced_msg = wire_msg.serialize();
                r.push(AeAction::SendClientAe { recipient: origin, correlation_id, update, bounced_msg });
            }
        },
        MsgKind::Node { .. } | MsgKind::NodeDataResponse { .. } => {
            r.push(AeAction::TrackNodeIssue { name: origin.name });
            r.push(AeAction::SendNodeAe { recipient: origin, correlation_id, update, kind, on_stream: has_stream });
        },
        MsgKind::ClientDataResponse { .. } => {},
    }
    r
}

/// What to do with an inbound message.
#[derive(Debug)]
pub enum InboundAction {
    /// Drop it: its authority's key is not one we know.
    Drop,
    /// Answer with anti-entropy instead of handling it.
    RespondAe(Vec<AeAction>),
    /// Hand it to its handler.
    Handle,
}

/// Validates an inbound message from `origin` whose authority is the section
/// key `authority_key`: an unknown authority key drops it; join requests and
/// anti-entropy messages go to their handlers unchecked; a message for our
/// prefix under our key goes to its handler; one with no matching section
/// gives `NoMatchingSection`; any other gets the anti-entropy response that
/// `check_for_entropy` finds, as the actions of `ae_actions_spec`.
pub fn validate_msg(
    nk: &NetworkKnowledge,
    origin: Peer,
    wire_msg: &WireMsg,
    authority_key: &SectionKey,
    has_stream: bool,
) -> (r: Result<InboundAction, AeError>)
    requires
        nk.wf(),
    ensures
        !nk.chain.has_key(authority_key@) ==> (r matches Ok(InboundAction::Drop)),
        nk.chain.has_key(authority_key@) && skips_entropy_check(wire_msg.kind) ==> (r matches Ok(InboundAction::Handle)),
        nk.chain.has_key(authority_key@) && !skips_entropy_check(wire_msg.kind) ==> ((prefix_matches(nk.our_prefix@,
            wire_msg@.dst_name) && wire_msg@.dst_key == nk.our_key()) <==> (r matches Ok(InboundAction::Handle))),
        nk.chain.has_key(authority_key@) && !skips_entropy_check(wire_msg.kind) ==> (r == Err::<InboundAction, AeError>(
            AeError::NoMatchingSection) <==> (!prefix_matches(nk.our_prefix@, wire_msg@.dst_name) && !has_section_for(*nk, wire_msg@.dst_name))),
        r.is_err() ==> r == Err::<InboundAction, AeError>(AeError::NoMatchingSection),
        nk.chain.has_key(authority_key@) ==> !(r matches Ok(InboundAction::Drop)),
        match r {
            Ok(InboundAction::RespondAe(acts)) => exists|u: SectionTreeUpdate, k: AntiEntropyKind|
                entropy_result(*wire_msg, *nk, Ok(Some((u, k)))) && #[trigger] ae_actions_spec(*wire_msg, origin, u, k, has_stream, acts@),
            _ => true,
        },
{
    if !nk.chain.has_key_exec(authority_key) {
        return Ok(InboundAction::Drop);
    }
    let res = check_inbound_for_entropy(wire_msg, nk);
    let ghost gres = res;
    match res {
        Err(e) => Err(e),
        Ok(None) => Ok(InboundAction::Handle),
        Ok(Some((u, k))) => {
            let ghost gu = u;
            let ghost gk = k;
            let acts = generate_anti_entropy_cmds(wire_msg, origin, u, k, has_stream);
            proof {
                assert(gres == Ok::<Option<(SectionTreeUpdate, AntiEntropyKind)>, AeError>(Some((gu, gk))));
                assert(entropy_result(*wire_msg, *nk, Ok(Some((gu, gk)))));
                assert(ae_actions_spec(*wire_msg, origin, gu, gk, has_stream, acts@));
            }
            let r: Result<InboundAction, AeError> = Ok(InboundAction::RespondAe(acts));
            let ghost gr = r;
            proof {
                match gr {
                    Ok(InboundAction::RespondAe(a)) => {
                        assert(a@ == acts@);
                        assert(entropy_result(*wire_msg, *nk, Ok(Some((gu, gk)))) && ae_actions_spec(*wire_msg, origin, gu, gk, has_stream, a@));
                    },
                    _ => {},
                }
            }
            r
        },
    }
}

/// Some SAP of the tree has a prefix that matches `name`.
pub open spec fn has_section_for(nk: NetworkKnowledge, name: Seq<u8>) -> bool {
    exists|j: int| 0 <= j < nk.tree.entries@.len() && prefix_matches(#[trigger] nk.tree.entries@[j].sap.prefix@, name)
}

/// The key of the section whose prefix is the longest to match `name`.
pub open spec fn closest_key(nk: NetworkKnowledge, name: Seq<u8>) -> Seq<u8> {
    nk.tree.entries@[choose|i: int| nk.tree.is_closest(i, name)].sap.section_key@
}

/// Two closest entries for one name are the same entry.
pub proof fn lemma_closest_unique(nk: NetworkKnowledge, name: Seq<u8>, i: int, j: int)
    requires
        nk.tree.wf(),
        nk.tree.is_closest(i, name),
        nk.tree.is_closest(j, name),
    ensures
        i == j,
{
    let p = nk.tree.entries@[i].sap.prefix@;
    let q = nk.tree.entries@[j].sap.prefix@;
    assert(p.len() == q.len());
    assert(p =~= q);
    if i != j {
        assert(nk.tree.entries@[i].sap.prefix@ != nk.tree.entries@[j].sap.prefix@);
    }
}

/// The destination for a message to `name`: the name with the key of the
/// section whose prefix is the longest to match it, if any is known.
pub fn generate_dst(nk: &NetworkKnowledge, name: &XorName) -> (r: Option<crate::wire::Dst>)
    requires
        nk.wf(),
    ensures
        r.is_some() == has_section_for(*nk, name@),
        r.is_some() ==> r.unwrap().name@ == name@ && r.unwrap().section_key@ == closest_key(*nk, name@),
{
    match nk.tree.closest(name) {
        Some(i) => {
            proof {
                let c = choose|c: int| nk.tree.is_closest(c, name@);
                lemma_closest_unique(*nk, name@, c, i as int);
            }
            Some(crate::wire::Dst { name: *name, section_key: nk.tree.entries[i].sap.section_key })
        },
        None => None,
    }
}

/// The bytes for each recipient whose section is known: the message
/// addressed to the recipient's name and the key of its section.
pub open spec fn msg_bytes_spec(nk: NetworkKnowledge, w: WireMsg, rs: Seq<Peer>) -> Seq<(Peer, Seq<u8>)>
    decreases rs.len(),
{
    if rs.len() == 0 {
        Seq::empty()
    } else {
        let init = msg_bytes_spec(nk, w, rs.drop_last());
        let p = rs.last();
        if has_section_for(nk, p.name@) {
            init.push((p, wire_bytes(crate::wire::WireMsgView { dst_name: p.name@, dst_key: closest_key(nk, p.name@), ..w@ })))
        } else {
            init
        }
    }
}

/// The bytes to send to each recipient (see `msg_bytes_spec`); recipients
/// whose section is unknown are left out.
pub fn into_msg_bytes(nk: &NetworkKnowledge, wire_msg: &WireMsg, recipients: &Vec<Peer>) -> (r: Vec<(Peer, Vec<u8>)>)
    requires
        nk.wf(),
    ensures
        r@.map_values(|x: (Peer, Vec<u8>)| (x.0, x.1@)) == msg_bytes_spec(*nk, *wire_msg, recipients@),
{
    let mut out: Vec<(Peer, Vec<u8>)> = Vec::new();
    let mut i: usize = 0;
    while i < recipients.len()
        invariant
            nk.wf(),
            i <= recipients@.len(),
            out@.map_values(|x: (Peer, Vec<u8>)| (x.0, x.1@)) == msg_bytes_spec(*nk, *wire_msg, recipients@.subrange(0, i as int)),
        decreases recipients@.len() - i,
    {
        let peer = recipients[i];
        proof {
            assert(recipients@.subrange(0, i + 1).drop_last() =~= recipients@.subrange(0, i as int));
        }
        match generate_dst(nk, &peer.name) {
            Some(dst) => {
                let bytes = wire_msg.serialize_with_new_dst(&dst);
                let ghost before = out@;
                out.push((peer, bytes));
                proof {
                    assert(out@.map_values(|x: (Peer, Vec<u8>)| (x.0, x.1@))
                        =~= before.map_values(|x: (Peer, Vec<u8>)| (x.0, x.1@)).push((peer, bytes@)));
                }
            },
            None => {},
        }
        i = i + 1;
    }
    proof {
        assert(recipients@.subrange(0, recipients@.len() as int) =~= recipients@);
    }
    out
}

/// Bytes bounced back in a `Retry` or `Redirect` read back as the message
/// that was checked.
pub proof fn lemma_bounced_round_trip(wire_msg: WireMsg)
    ensures
        bytes_wf(wire_bytes(wire_msg@)),
        view_of_bytes(wire_bytes(wire_msg@)) == wire_msg@,
{
    wire_msg.lemma_view_wf();
    lemma_wire_round_trip(wire_msg@);
}

} // verus!
