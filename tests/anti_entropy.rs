use blsttc::SecretKey;
use sn_node::anti_entropy::{
    ae_resend_target, check_for_entropy, check_inbound_for_entropy, closest_elder, generate_anti_entropy_cmds,
    ae_probe_reply, generate_dst, handle_anti_entropy_msg, handle_join_response, into_msg_bytes,
    send_ae_update_to_our_section, send_updates_to_sibling_section, validate_msg, AeAction, AeError,
    AntiEntropyKind, InboundAction, JoinResponse,
};
use sn_node::keys::{SectionKey, Signature};
use sn_node::network_knowledge::{KnowledgeError, NetworkKnowledge, SectionTreeUpdate};
use sn_node::sap::{
    MembershipState, NodeState, Peer, PeerAddr, SectionAuthorityProvider, SectionSig, SignedNodeState,
    SignedSap,
};
use sn_node::section_chain::{ChainEdge, SectionChain};
use sn_node::wire::{Dst, MsgKind, WireMsg};
use sn_node::xor_space::{Prefix, XorName};

fn key(sk: &SecretKey) -> SectionKey {
    SectionKey(sk.public_key().to_bytes())
}

fn sign(sk: &SecretKey, msg: &[u8]) -> Signature {
    Signature(sk.sign(msg).to_bytes())
}

fn edge(parent: &SecretKey, child: &SecretKey) -> ChainEdge {
    ChainEdge {
        parent: key(parent),
        child: key(child),
        sig: sign(parent, &key(child).0),
    }
}

fn name(first: u8, fill: u8) -> XorName {
    let mut b = [fill; 32];
    b[0] = first;
    XorName(b)
}

fn peer(n: XorName) -> Peer {
    Peer {
        name: n,
        addr: PeerAddr { ip: [0; 16], port: 12000 },
    }
}

fn prefix(s: &str) -> Prefix {
    Prefix::from_bits(s.chars().map(|c| c == '1').collect())
}

fn signed_sap(prefix: Prefix, section_sk: &SecretKey, signer: &SecretKey, elders: Vec<Peer>, generation: u64) -> SignedSap {
    let sap = SectionAuthorityProvider {
        prefix,
        section_key: key(section_sk),
        members_count: elders.len() as u64,
        elders,
        generation,
    };
    let bytes = sap.signing_bytes();
    SignedSap {
        sap,
        sig: SectionSig {
            public_key: key(signer),
            signature: sign(signer, &bytes),
        },
    }
}

fn signed_member(n: XorName, sk: &SecretKey) -> SignedNodeState {
    let node = NodeState {
        name: n,
        addr: PeerAddr { ip: [0; 16], port: 12000 },
        age: 5,
        state: MembershipState::Joined,
        previous_name: None,
    };
    let bytes = node.signing_bytes();
    SignedNodeState {
        node,
        sig: SectionSig {
            public_key: key(sk),
            signature: sign(sk, &bytes),
        },
    }
}

fn our_elders() -> Vec<Peer> {
    vec![peer(name(0x10, 1)), peer(name(0x20, 2)), peer(name(0x30, 3))]
}

fn sibling_elders() -> Vec<Peer> {
    vec![peer(name(0x90, 4)), peer(name(0xa0, 5)), peer(name(0xf0, 6))]
}

fn knowledge(k0: &SecretKey, k1: &SecretKey, k2: &SecretKey) -> NetworkKnowledge {
    let mut chain = SectionChain::new(key(k0));
    assert_eq!(chain.insert(&key(k0), key(k1), sign(k0, &key(k1).0)), Ok(true));
    assert_eq!(chain.insert(&key(k1), key(k2), sign(k1, &key(k2).0)), Ok(true));
    let ours = signed_sap(prefix("0"), k2, k1, our_elders(), 3);
    NetworkKnowledge::new(chain, ours).expect("valid knowledge")
}

/// Three keys of our section (prefix 0) in a row, and a sibling (prefix 1)
/// split off the middle one.
struct Env {
    k0: SecretKey,
    k1: SecretKey,
    k2: SecretKey,
    sib: SecretKey,
    nk: NetworkKnowledge,
}

impl Env {
    fn new() -> Env {
        let k0 = SecretKey::random();
        let k1 = SecretKey::random();
        let k2 = SecretKey::random();
        let sib = SecretKey::random();
        let nk = knowledge(&k0, &k1, &k2);
        Env { k0, k1, k2, sib, nk }
    }

    fn sibling_update(&self) -> SectionTreeUpdate {
        SectionTreeUpdate {
            signed_sap: signed_sap(prefix("1"), &self.sib, &self.k1, sibling_elders(), 1),
            proof_chain: SectionChain {
                genesis: key(&self.k1),
                edges: vec![edge(&self.k1, &self.sib)],
            },
        }
    }
}

fn create_msg(dst_name: XorName, dst_key: SectionKey) -> WireMsg {
    WireMsg {
        msg_id: [7; 16],
        kind: MsgKind::Node {
            name: name(0x40, 9),
            is_join: false,
            is_ae: false,
        },
        dst: Dst {
            name: dst_name,
            section_key: dst_key,
        },
        priority: 4,
        payload: vec![1, 2, 3, 4],
    }
}

fn same_chain(a: &SectionChain, b: &SectionChain) -> bool {
    a.genesis == b.genesis
        && a.edges.len() == b.edges.len()
        && a.edges.iter().zip(b.edges.iter()).all(|(x, y)| x.parent == y.parent && x.child == y.child && x.sig == y.sig)
}

fn same_signed_sap(a: &SignedSap, b: &SignedSap) -> bool {
    a.sap.prefix == b.sap.prefix
        && a.sap.section_key == b.sap.section_key
        && a.sap.generation == b.sap.generation
        && a.sap.elders.len() == b.sap.elders.len()
        && a.sig.public_key == b.sig.public_key
        && a.sig.signature == b.sig.signature
}

fn xor_dist(a: &XorName, b: &XorName) -> [u8; 32] {
    let mut d = [0u8; 32];
    for i in 0..32 {
        d[i] = a.0[i] ^ b.0[i];
    }
    d
}

#[test]
fn anti_entropy_ae_everything_up_to_date() {
    let env = Env::new();
    let msg = create_msg(name(0x55, 0xee), env.nk.section_key());
    let ae_msg = check_for_entropy(&msg, &env.nk).expect("no error");
    assert!(ae_msg.is_none());
}

#[test]
fn anti_entropy_ae_redirect_to_other_section() {
    let mut env = Env::new();
    let other_pk = key(&SecretKey::random());
    let msg = create_msg(name(0x80, 0), other_pk);

    // we do not know the other prefix yet
    assert_eq!(check_for_entropy(&msg, &env.nk).err(), Some(AeError::NoMatchingSection));

    // now let's insert the other SAP to make it aware of the other prefix
    let our_name = name(0x10, 1);
    assert_eq!(env.nk.update_knowledge_if_valid(env.sibling_update(), None, &our_name), Ok(true));

    // and it now shall give us an AE redirect msg with the SAP we inserted
    let (update, kind) = check_for_entropy(&msg, &env.nk).expect("no error").expect("no entropy found");
    assert!(same_signed_sap(&update.signed_sap, &env.sibling_update().signed_sap));
    assert!(matches!(kind, AntiEntropyKind::Redirect { .. }));
    assert_eq!(update.proof_chain.genesis, key(&env.k0));
    assert_eq!(update.proof_chain.edges.len(), 2);
    assert!(update.proof_chain.edges[1].child == key(&env.sib));
}

#[test]
fn anti_entropy_ae_outdated_dst_key_of_our_section() {
    let env = Env::new();
    let msg = create_msg(name(0x55, 0xee), env.nk.genesis_key());
    let (update, kind) = check_for_entropy(&msg, &env.nk).expect("no error").expect("no entropy found");
    assert!(same_signed_sap(&update.signed_sap, &env.nk.signed_sap()));
    assert!(same_chain(&update.proof_chain, &env.nk.section_chain()));
    assert!(matches!(kind, AntiEntropyKind::Retry { .. }));
}

#[test]
fn ae_wrong_dst_key_of_our_section_returns_retry() {
    let env = Env::new();
    let bogus = key(&SecretKey::random());
    let msg = create_msg(name(0x55, 0xee), bogus);
    let (update, kind) = check_for_entropy(&msg, &env.nk).expect("no error").expect("no entropy found");
    assert!(same_signed_sap(&update.signed_sap, &env.nk.signed_sap()));
    assert!(same_chain(&update.proof_chain, &env.nk.section_chain()));
    assert!(matches!(kind, AntiEntropyKind::Retry { .. }));
}

#[test]
fn ae_newer_dst_key_of_our_section() {
    let env = Env::new();
    let our_new_pk = key(&SecretKey::random());
    let msg = create_msg(name(0x01, 0x02), our_new_pk);
    let (update, kind) = check_for_entropy(&msg, &env.nk).expect("no error").expect("failed to deserialised anti-entropy message");
    assert!(matches!(kind, AntiEntropyKind::Retry { .. }));
    assert!(update.signed_sap.sap.section_key == env.nk.section_key());
    assert!(same_chain(&update.proof_chain, &env.nk.section_chain()));
    assert_eq!(update.proof_chain.edges.len(), 2);
}

#[test]
fn outdated_key_gets_our_chain_from_genesis() {
    let env = Env::new();
    let msg = create_msg(name(0x55, 0xee), key(&env.k1));
    let (update, kind) = check_for_entropy(&msg, &env.nk).expect("no error").expect("entropy");
    assert!(matches!(kind, AntiEntropyKind::Retry { .. }));
    assert!(same_signed_sap(&update.signed_sap, &env.nk.signed_sap()));
    assert_eq!(update.proof_chain.genesis, key(&env.k0));
    assert_eq!(update.proof_chain.edges.len(), 2);
    assert_eq!(update.proof_chain.edges[0].child, key(&env.k1));
    assert_eq!(update.proof_chain.edges[1].child, key(&env.k2));
    assert!(update.proof_chain.edges.iter().all(|e| e.parent.verify(&e.sig, &e.child.0)));
}

#[test]
fn retry_bounced_bytes_read_back_as_the_checked_message() {
    let env = Env::new();
    let msg = create_msg(name(0x55, 0xee), key(&env.k1));
    let (_, kind) = check_for_entropy(&msg, &env.nk).expect("no error").expect("entropy");
    let bytes = match kind {
        AntiEntropyKind::Retry { bounced_msg } => bounced_msg,
        _ => panic!("expected a retry"),
    };
    assert_eq!(bytes, msg.serialize());
    let back = WireMsg::deserialize(&bytes).expect("readable");
    assert_eq!(back.msg_id, msg.msg_id);
    assert_eq!(back.dst.name, msg.dst.name);
    assert_eq!(back.dst.section_key, msg.dst.section_key);
    assert_eq!(back.priority, msg.priority);
    assert_eq!(back.payload, msg.payload);
    assert_eq!(back.kind.sender_name(), msg.kind.sender_name());
}

#[test]
fn sibling_not_yet_known_yields_no_matching_section() {
    let env = Env::new();
    let msg = create_msg(name(0xc0, 0x11), env.nk.section_key());
    assert_eq!(check_for_entropy(&msg, &env.nk).err(), Some(AeError::NoMatchingSection));
}

#[test]
fn name_outside_prefix_redirects_even_with_our_key() {
    let mut env = Env::new();
    let our_name = name(0x10, 1);
    assert_eq!(env.nk.update_knowledge_if_valid(env.sibling_update(), None, &our_name), Ok(true));
    let msg = create_msg(name(0xc0, 0x11), env.nk.section_key());
    let (_, kind) = check_for_entropy(&msg, &env.nk).expect("no error").expect("entropy");
    assert!(matches!(kind, AntiEntropyKind::Redirect { .. }));
}

#[test]
fn redirect_resend_goes_to_elder_closest_to_sibling_key() {
    let env = Env::new();
    let sib = env.sibling_update().signed_sap;
    let bounced = create_msg(name(0x80, 0), key(&env.k2)).serialize();
    let sender = peer(name(0x33, 3));
    let (msg, target) = ae_resend_target(&sib, &AntiEntropyKind::Redirect { bounced_msg: bounced }, &sender)
        .expect("no error")
        .expect("resend");
    assert_eq!(msg.dst.section_key, key(&env.k2));
    let t = key(&env.sib).name();
    let expected = sibling_elders()
        .into_iter()
        .min_by_key(|p| xor_dist(&p.name, &t))
        .unwrap();
    assert_eq!(target.name, expected.name);
    assert_eq!(closest_elder(&sibling_elders(), &t).unwrap().name, expected.name);
}

#[test]
fn retry_resend_goes_back_to_sender() {
    let env = Env::new();
    let bounced = create_msg(name(0x55, 0xee), key(&env.k1)).serialize();
    let sender = peer(name(0x33, 3));
    let (msg, target) = ae_resend_target(&env.nk.signed_sap(), &AntiEntropyKind::Retry { bounced_msg: bounced }, &sender)
        .expect("no error")
        .expect("resend");
    assert_eq!(target.name, sender.name);
    assert_eq!(msg.dst.section_key, key(&env.k1));
    assert_eq!(msg.payload, vec![1, 2, 3, 4]);
}

#[test]
fn loop_guard_drops_rebounced_message() {
    let env = Env::new();
    let bounced = create_msg(name(0x55, 0xee), env.nk.section_key()).serialize();
    let sender = peer(name(0x33, 3));
    let r = ae_resend_target(&env.nk.signed_sap(), &AntiEntropyKind::Retry { bounced_msg: bounced }, &sender);
    assert!(r.expect("no error").is_none());
}

#[test]
fn unreadable_bounced_bytes_are_an_error() {
    let env = Env::new();
    let sender = peer(name(0x33, 3));
    let r = ae_resend_target(&env.nk.signed_sap(), &AntiEntropyKind::Retry { bounced_msg: vec![1, 2, 3] }, &sender);
    assert!(matches!(r, Err(AeError::InvalidBouncedMsg(_))));
}

#[test]
fn update_with_bad_signature_is_untrusted() {
    let mut env = Env::new();
    let mut update = env.sibling_update();
    update.signed_sap.sig.signature = sign(&env.k0, b"something else");
    let our_name = name(0x10, 1);
    assert_eq!(
        env.nk.update_knowledge_if_valid(update, None, &our_name),
        Err(KnowledgeError::UntrustedUpdate)
    );
    let mut update = env.sibling_update();
    update.proof_chain.edges[0].sig = sign(&env.k2, &key(&env.sib).0);
    assert_eq!(
        env.nk.update_knowledge_if_valid(update, None, &our_name),
        Err(KnowledgeError::UntrustedUpdate)
    );
}

#[test]
fn same_update_twice_changes_nothing_the_second_time() {
    let mut env = Env::new();
    let our_name = name(0x10, 1);
    assert_eq!(env.nk.would_update(&env.sibling_update(), &None), Ok(true));
    assert_eq!(env.nk.update_knowledge_if_valid(env.sibling_update(), None, &our_name), Ok(true));
    assert_eq!(env.nk.would_update(&env.sibling_update(), &None), Ok(false));
    assert_eq!(env.nk.update_knowledge_if_valid(env.sibling_update(), None, &our_name), Ok(false));
}

#[test]
fn removed_from_section_requires_rejoin() {
    let mut env = Env::new();
    let our_name = name(0x10, 1);
    // we are a member under the current key
    let members: Vec<SignedNodeState> = our_elders().iter().map(|p| signed_member(p.name, &env.k2)).collect();
    let update = SectionTreeUpdate {
        signed_sap: signed_sap(prefix("0"), &env.k2, &env.k1, our_elders(), 4),
        proof_chain: SectionChain::new(key(&env.k0)),
    };
    let sender = peer(name(0x20, 2));
    let out = handle_anti_entropy_msg(&mut env.nk, update, AntiEntropyKind::Update { members }, sender, &our_name)
        .expect("accepted");
    assert!(out.updated);
    assert!(out.untrack_sender);
    assert!(out.resend.is_none());
    assert!(env.nk.is_member(&our_name));
    // a new key whose members leave us out
    let k3 = SecretKey::random();
    let new_elders = vec![peer(name(0x20, 2)), peer(name(0x30, 3)), peer(name(0x50, 7))];
    let members: Vec<SignedNodeState> = new_elders.iter().map(|p| signed_member(p.name, &k3)).collect();
    let update = SectionTreeUpdate {
        signed_sap: signed_sap(prefix("0"), &k3, &env.k2, new_elders, 5),
        proof_chain: SectionChain {
            genesis: key(&env.k2),
            edges: vec![edge(&env.k2, &k3)],
        },
    };
    let r = handle_anti_entropy_msg(&mut env.nk, update, AntiEntropyKind::Update { members }, sender, &our_name);
    assert!(matches!(r, Err(AeError::RejoinRequired)));
}

#[test]
fn ae_update_to_our_section_skips_us_and_uses_previous_key() {
    let mut env = Env::new();
    let our_name = name(0x10, 1);
    let members: Vec<SignedNodeState> = our_elders().iter().map(|p| signed_member(p.name, &env.k2)).collect();
    let update = SectionTreeUpdate {
        signed_sap: signed_sap(prefix("0"), &env.k2, &env.k1, our_elders(), 4),
        proof_chain: SectionChain::new(key(&env.k0)),
    };
    assert_eq!(env.nk.update_knowledge_if_valid(update, Some(members), &our_name), Ok(true));
    let b = send_ae_update_to_our_section(&env.nk, &our_name).expect("recipients");
    assert_eq!(b.recipients.len(), 2);
    assert!(b.recipients.iter().all(|p| p.name != our_name));
    assert_eq!(b.dst_key, key(&env.k1));
    assert_eq!(b.update.proof_chain.genesis, key(&env.k0));
    assert!(matches!(b.kind, AntiEntropyKind::Update { ref members } if members.len() == 3));
}

#[test]
fn sibling_update_goes_to_promoted_elders() {
    let mut env = Env::new();
    let our_name = name(0x10, 1);
    assert!(send_updates_to_sibling_section(&env.nk).is_none());
    let mut update = env.sibling_update();
    let mut elders = our_elders();
    elders.push(peer(name(0xb0, 8)));
    update.signed_sap = signed_sap(prefix("1"), &env.sib, &env.k1, elders, 1);
    assert_eq!(env.nk.update_knowledge_if_valid(update, None, &our_name), Ok(true));
    let b = send_updates_to_sibling_section(&env.nk).expect("promoted elders");
    assert_eq!(b.recipients.len(), 1);
    assert_eq!(b.recipients[0].name, name(0xb0, 8));
    assert_eq!(b.dst_key, key(&env.k2));
    assert_eq!(b.update.proof_chain.genesis, key(&env.k0));
}

#[test]
fn join_and_ae_messages_skip_the_entropy_check() {
    let env = Env::new();
    let mut msg = create_msg(name(0xc0, 0x11), key(&env.k0));
    msg.kind = MsgKind::Node { name: name(0x40, 9), is_join: true, is_ae: false };
    assert!(check_inbound_for_entropy(&msg, &env.nk).expect("no error").is_none());
    msg.kind = MsgKind::Node { name: name(0x40, 9), is_join: false, is_ae: true };
    assert!(check_inbound_for_entropy(&msg, &env.nk).expect("no error").is_none());
    msg.kind = MsgKind::Node { name: name(0x40, 9), is_join: false, is_ae: false };
    assert_eq!(check_inbound_for_entropy(&msg, &env.nk).err(), Some(AeError::NoMatchingSection));
}

#[test]
fn ae_response_actions_by_message_kind() {
    let env = Env::new();
    let origin = peer(name(0x33, 3));
    let mut msg = create_msg(name(0x55, 0xee), key(&env.k1));
    let (update, kind) = check_for_entropy(&msg, &env.nk).expect("no error").expect("entropy");
    let actions = generate_anti_entropy_cmds(&msg, origin, update, kind, false);
    assert_eq!(actions.len(), 2);
    assert!(matches!(actions[0], AeAction::TrackNodeIssue { name } if name == origin.name));
    match &actions[1] {
        AeAction::SendNodeAe { recipient, correlation_id, update, kind, on_stream } => {
            assert_eq!(recipient.name, origin.name);
            assert_eq!(*correlation_id, msg.msg_id);
            assert_eq!(update.signed_sap.sap.section_key, env.nk.section_key());
            assert!(matches!(kind, AntiEntropyKind::Retry { .. }));
            assert!(!on_stream);
        }
        _ => panic!("expected a node response"),
    }

    msg.kind = MsgKind::Client { name: name(0x40, 9) };
    let (update, kind) = check_for_entropy(&msg, &env.nk).expect("no error").expect("entropy");
    assert!(generate_anti_entropy_cmds(&msg, origin, update, kind, false).is_empty());
    let (update, kind) = check_for_entropy(&msg, &env.nk).expect("no error").expect("entropy");
    let actions = generate_anti_entropy_cmds(&msg, origin, update, kind, true);
    assert_eq!(actions.len(), 1);
    match &actions[0] {
        AeAction::SendClientAe { bounced_msg, correlation_id, .. } => {
            assert_eq!(bounced_msg, &msg.serialize());
            assert_eq!(*correlation_id, msg.msg_id);
        }
        _ => panic!("expected a client response"),
    }
}

#[test]
fn msg_bytes_are_addressed_per_recipient() {
    let mut env = Env::new();
    let our_name = name(0x10, 1);
    let recipients = vec![peer(name(0x22, 1)), peer(name(0x99, 2))];
    let msg = create_msg(name(0x55, 0xee), key(&env.k0));
    let out = into_msg_bytes(&env.nk, &msg, &recipients);
    assert_eq!(out.len(), 1);
    assert_eq!(out[0].0.name, name(0x22, 1));
    let back = WireMsg::deserialize(&out[0].1).expect("readable");
    assert_eq!(back.dst.name, name(0x22, 1));
    assert_eq!(back.dst.section_key, key(&env.k2));
    assert_eq!(back.payload, msg.payload);

    assert_eq!(env.nk.update_knowledge_if_valid(env.sibling_update(), None, &our_name), Ok(true));
    let out = into_msg_bytes(&env.nk, &msg, &recipients);
    assert_eq!(out.len(), 2);
    let back = WireMsg::deserialize(&out[1].1).expect("readable");
    assert_eq!(back.dst.section_key, key(&env.sib));
    assert_eq!(generate_dst(&env.nk, &name(0x99, 2)).unwrap().section_key, key(&env.sib));
}

#[test]
fn updates_in_either_order_give_the_same_knowledge() {
    let env = Env::new();
    let our_name = name(0x10, 1);
    let k3 = SecretKey::random();
    let ours_next = || SectionTreeUpdate {
        signed_sap: signed_sap(prefix("0"), &k3, &env.k2, our_elders(), 4),
        proof_chain: SectionChain {
            genesis: key(&env.k2),
            edges: vec![edge(&env.k2, &k3)],
        },
    };
    let mut a = knowledge(&env.k0, &env.k1, &env.k2);
    let mut b = knowledge(&env.k0, &env.k1, &env.k2);
    assert_eq!(a.update_knowledge_if_valid(env.sibling_update(), None, &our_name), Ok(true));
    assert_eq!(a.update_knowledge_if_valid(ours_next(), None, &our_name), Ok(true));
    assert_eq!(b.update_knowledge_if_valid(ours_next(), None, &our_name), Ok(true));
    assert_eq!(b.update_knowledge_if_valid(env.sibling_update(), None, &our_name), Ok(true));
    for p in ["0", "1"] {
        let sa = a.tree.get_signed(&prefix(p)).expect("known");
        let sb = b.tree.get_signed(&prefix(p)).expect("known");
        assert!(same_signed_sap(sa, sb));
    }
    assert_eq!(a.tree.entries.len(), 2);
    assert_eq!(b.tree.entries.len(), 2);
    assert_eq!(a.section_key(), key(&k3));
    assert_eq!(b.section_key(), key(&k3));
    let mut ca: Vec<[u8; 48]> = a.chain.edges.iter().map(|e| e.child.0).collect();
    let mut cb: Vec<[u8; 48]> = b.chain.edges.iter().map(|e| e.child.0).collect();
    ca.sort();
    cb.sort();
    assert_eq!(ca, cb);
    assert_eq!(ca.len(), 4);
    for k in [key(&env.k1), key(&env.k2), key(&k3), key(&env.sib)] {
        assert_eq!(a.chain.get_parent_key(&k), b.chain.get_parent_key(&k));
    }
}

#[test]
fn older_generation_for_our_prefix_is_not_taken() {
    let mut env = Env::new();
    let our_name = name(0x10, 1);
    let stale = SectionTreeUpdate {
        signed_sap: signed_sap(prefix("0"), &env.k1, &env.k0, our_elders(), 2),
        proof_chain: SectionChain::new(key(&env.k0)),
    };
    assert_eq!(env.nk.update_knowledge_if_valid(stale, None, &our_name), Ok(false));
    assert_eq!(env.nk.section_key(), key(&env.k2));
}

#[test]
fn split_moves_us_to_the_child_prefix_holding_our_name() {
    let mut env = Env::new();
    let our_name = name(0x10, 1);
    let k00 = SecretKey::random();
    let k01 = SecretKey::random();
    let other_half = SectionTreeUpdate {
        signed_sap: signed_sap(prefix("01"), &k01, &env.k2, vec![peer(name(0x50, 1)), peer(name(0x60, 2))], 1),
        proof_chain: SectionChain { genesis: key(&env.k2), edges: vec![edge(&env.k2, &k01)] },
    };
    assert_eq!(env.nk.update_knowledge_if_valid(other_half, None, &our_name), Ok(true));
    // the entry for the other half does not take us with it
    assert_eq!(env.nk.prefix(), prefix("0"));
    assert_eq!(env.nk.section_key(), key(&env.k2));
    let our_half = SectionTreeUpdate {
        signed_sap: signed_sap(prefix("00"), &k00, &env.k2, vec![peer(name(0x10, 1)), peer(name(0x20, 2))], 1),
        proof_chain: SectionChain { genesis: key(&env.k2), edges: vec![edge(&env.k2, &k00)] },
    };
    assert_eq!(env.nk.update_knowledge_if_valid(our_half, None, &our_name), Ok(true));
    assert_eq!(env.nk.prefix(), prefix("00"));
    assert_eq!(env.nk.section_key(), key(&k00));
    assert!(env.nk.tree.get_signed(&prefix("0")).is_none());
    assert!(env.nk.tree.get_signed(&prefix("01")).is_some());
    let msg = create_msg(name(0x55, 0xee), key(&k00));
    let (_, kind) = check_for_entropy(&msg, &env.nk).expect("no error").expect("redirect");
    assert!(matches!(kind, AntiEntropyKind::Redirect { .. }));
}

#[test]
fn validate_msg_routes_inbound_messages() {
    let mut env = Env::new();
    let origin = peer(name(0x33, 3));
    let ours = key(&env.k2);
    // unknown authority: dropped
    let msg = create_msg(name(0x55, 0xee), ours);
    let r = validate_msg(&env.nk, origin, &msg, &key(&SecretKey::random()), false);
    assert!(matches!(r, Ok(InboundAction::Drop)));
    // up to date: handled
    assert!(matches!(validate_msg(&env.nk, origin, &msg, &key(&env.k1), false), Ok(InboundAction::Handle)));
    // join request for another prefix: handled unchecked
    let mut join = create_msg(name(0xc0, 1), key(&env.k0));
    join.kind = MsgKind::Node { name: name(0x40, 9), is_join: true, is_ae: false };
    assert!(matches!(validate_msg(&env.nk, origin, &join, &key(&env.k1), false), Ok(InboundAction::Handle)));
    // no section for the name: dropped with an error
    let far = create_msg(name(0xc0, 1), ours);
    assert_eq!(validate_msg(&env.nk, origin, &far, &key(&env.k1), false).err(), Some(AeError::NoMatchingSection));
    // stale key: anti-entropy response
    let stale = create_msg(name(0x55, 0xee), key(&env.k0));
    match validate_msg(&env.nk, origin, &stale, &key(&env.k1), true) {
        Ok(InboundAction::RespondAe(acts)) => {
            assert_eq!(acts.len(), 2);
            assert!(matches!(acts[1], AeAction::SendNodeAe { on_stream: true, .. }));
        }
        _ => panic!("expected an anti-entropy response"),
    }
    // sibling known: redirect
    let our_name = name(0x10, 1);
    assert_eq!(env.nk.update_knowledge_if_valid(env.sibling_update(), None, &our_name), Ok(true));
    match validate_msg(&env.nk, origin, &far, &key(&env.k1), false) {
        Ok(InboundAction::RespondAe(acts)) => match &acts[1] {
            AeAction::SendNodeAe { kind, .. } => assert!(matches!(kind, AntiEntropyKind::Redirect { .. })),
            _ => panic!("expected a node response"),
        },
        _ => panic!("expected an anti-entropy response"),
    }
}

#[test]
fn probe_reply_only_from_elders() {
    let env = Env::new();
    let sender = peer(name(0x33, 3));
    assert!(ae_probe_reply(&env.nk, false, sender, key(&env.k1)).is_none());
    let b = ae_probe_reply(&env.nk, true, sender, key(&env.k1)).expect("elders answer");
    assert_eq!(b.recipients.len(), 1);
    assert_eq!(b.recipients[0].name, sender.name);
    assert_eq!(b.dst_key, key(&env.k1));
    assert_eq!(b.update.proof_chain.genesis, key(&env.k0));
}

#[test]
fn rejected_join_requires_rejoin() {
    assert_eq!(handle_join_response(JoinResponse::Rejected), Err(AeError::RejoinRequired));
    assert_eq!(handle_join_response(JoinResponse::Approved), Ok(()));
}

#[test]
fn knowledge_well_formedness_is_checked() {
    let mut env = Env::new();
    assert!(env.nk.check_wf());
    assert!(env.nk.chain.check_wf());
    assert!(env.nk.tree.check_wf());
    env.nk.chain.edges[1].sig = sign(&env.k2, &key(&env.k2).0);
    assert!(!env.nk.chain.check_wf());
    assert!(!env.nk.check_wf());
}

#[test]
fn repeated_ae_update_changes_nothing() {
    let mut env = Env::new();
    let our_name = name(0x10, 1);
    let sender = peer(name(0x20, 2));
    let bounced = create_msg(name(0x80, 0), key(&env.k1)).serialize();
    let update = env.sibling_update();
    let out = handle_anti_entropy_msg(&mut env.nk, update, AntiEntropyKind::Retry { bounced_msg: bounced.clone() }, sender, &our_name)
        .expect("accepted");
    assert!(out.updated);
    assert!(!out.untrack_sender);
    let (msg, target) = out.resend.expect("resend");
    assert_eq!(target.name, sender.name);
    assert_eq!(msg.dst.section_key, key(&env.k1));
    let edges = env.nk.chain.edges.len();
    let update = env.sibling_update();
    let out = handle_anti_entropy_msg(&mut env.nk, update, AntiEntropyKind::Retry { bounced_msg: bounced }, sender, &our_name)
        .expect("accepted");
    assert!(!out.updated);
    assert_eq!(env.nk.chain.edges.len(), edges);
    assert_eq!(env.nk.tree.entries.len(), 2);
}
