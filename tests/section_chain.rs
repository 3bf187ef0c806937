use blsttc::SecretKey;
use sn_node::keys::{SectionKey, Signature};
use sn_node::section_chain::{ChainEdge, ChainError, SectionChain};

fn key(sk: &SecretKey) -> SectionKey {
    SectionKey(sk.public_key().to_bytes())
}

fn sign(sk: &SecretKey, msg: &[u8]) -> Signature {
    Signature(sk.sign(msg).to_bytes())
}

#[test]
fn insert_checks_parent_signature_and_conflicts() {
    let k0 = SecretKey::random();
    let k1 = SecretKey::random();
    let k2 = SecretKey::random();
    let mut chain = SectionChain::new(key(&k0));
    assert_eq!(chain.insert(&key(&k1), key(&k2), sign(&k1, &key(&k2).0)), Err(ChainError::MissingParent));
    assert_eq!(chain.insert(&key(&k0), key(&k1), sign(&k2, &key(&k1).0)), Err(ChainError::InvalidSignature));
    assert_eq!(chain.insert(&key(&k0), key(&k1), sign(&k0, &key(&k1).0)), Ok(true));
    assert_eq!(chain.insert(&key(&k0), key(&k1), sign(&k0, &key(&k1).0)), Ok(false));
    assert_eq!(chain.insert(&key(&k1), key(&k0), sign(&k1, &key(&k0).0)), Err(ChainError::KeyConflict));
    assert_eq!(chain.len(), 1);
    assert_eq!(chain.get_parent_key(&key(&k1)), Some(key(&k0)));
    assert_eq!(chain.get_parent_key(&key(&k0)), None);
}

#[test]
fn proof_chain_runs_from_an_ancestor_to_the_key() {
    let k0 = SecretKey::random();
    let k1 = SecretKey::random();
    let k2 = SecretKey::random();
    let s = SecretKey::random();
    let mut chain = SectionChain::new(key(&k0));
    chain.insert(&key(&k0), key(&k1), sign(&k0, &key(&k1).0)).unwrap();
    chain.insert(&key(&k1), key(&s), sign(&k1, &key(&s).0)).unwrap();
    chain.insert(&key(&k1), key(&k2), sign(&k1, &key(&k2).0)).unwrap();
    let p = chain.get_proof_chain(&key(&k0), &key(&k2)).expect("on the path");
    assert_eq!(p.genesis, key(&k0));
    assert_eq!(p.edges.iter().map(|e| e.child).collect::<Vec<_>>(), vec![key(&k1), key(&k2)]);
    for e in &p.edges {
        assert!(e.parent.verify(&e.sig, &e.child.0));
    }
    let p = chain.get_proof_chain(&key(&k1), &key(&k2)).expect("on the path");
    assert_eq!(p.edges.len(), 1);
    // the sibling key is not on the path to k2
    assert!(chain.get_proof_chain(&key(&s), &key(&k2)).is_none());
    assert!(chain.get_proof_chain(&key(&k0), &key(&SecretKey::random())).is_none());
    assert_eq!(chain.get_proof_chain(&key(&k2), &key(&k2)).expect("itself").edges.len(), 0);
}

#[test]
fn merge_adds_all_or_nothing() {
    let k0 = SecretKey::random();
    let k1 = SecretKey::random();
    let k2 = SecretKey::random();
    let mut chain = SectionChain::new(key(&k0));
    let good = SectionChain {
        genesis: key(&k0),
        edges: vec![
            ChainEdge { parent: key(&k0), child: key(&k1), sig: sign(&k0, &key(&k1).0) },
            ChainEdge { parent: key(&k1), child: key(&k2), sig: sign(&k1, &key(&k2).0) },
        ],
    };
    let mut bad = good.clone();
    bad.edges[1].sig = sign(&k0, &key(&k2).0);
    assert!(!chain.merge(&bad));
    assert_eq!(chain.len(), 0);
    assert!(chain.merge(&good));
    assert_eq!(chain.len(), 2);
    assert!(chain.merge(&good));
    assert_eq!(chain.len(), 2);
    let unrooted = SectionChain { genesis: key(&SecretKey::random()), edges: vec![] };
    assert!(!chain.merge(&unrooted));
}
