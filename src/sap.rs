//! Section authority providers (SAPs), peers and member states, and the byte
//! strings that a section key signs to vouch for them.
use vstd::prelude::*;
use crate::keys::{bls_signature_valid, SectionKey, Signature};
use crate::wire::{push_all, u32_le};
use crate::xor_space::{Prefix, XorName};

verus! {

broadcast use vstd::array::group_array_axioms;

/// A network address: an IPv6 address (IPv4 addresses mapped) and a port.
#[derive(Clone, Copy, Debug)]
pub struct PeerAddr {
    pub ip: [u8; 16],
    pub port: u16,
}

/// A peer: its name and address.
#[derive(Clone, Copy, Debug)]
pub struct Peer {
    pub name: XorName,
    pub addr: PeerAddr,
}

/// A signature by a section key.
#[derive(Clone, Copy, Debug)]
pub struct SectionSig {
    pub public_key: SectionKey,
    pub signature: Signature,
}

/// One epoch of a section: its prefix, key and elders.
#[derive(Clone, Debug)]
pub struct SectionAuthorityProvider {
    pub prefix: Prefix,
    pub section_key: SectionKey,
    pub elders: Vec<Peer>,
    pub members_count: u64,
    pub generation: u64,
}

/// A SAP with a section key's signature of its bytes.
#[derive(Clone, Debug)]
pub struct SignedSap {
    pub sap: SectionAuthorityProvider,
    pub sig: SectionSig,
}

/// Where a member stands.
#[derive(Clone, Copy, Debug)]
pub enum MembershipState {
    Joined,
    Left,
    Relocated(XorName),
}

/// A section member.
#[derive(Clone, Copy, Debug)]
pub struct NodeState {
    pub name: XorName,
    pub addr: PeerAddr,
    pub age: u8,
    pub state: MembershipState,
    pub previous_name: Option<XorName>,
}

/// A member state with a section key's signature of its bytes.
#[derive(Clone, Copy, Debug)]
pub struct SignedNodeState {
    pub node: NodeState,
    pub sig: SectionSig,
}

/// The bytes of an address.
pub open spec fn addr_bytes(a: PeerAddr) -> Seq<u8> {
    a.ip@ + u32_le(a.port as u32)
}

/// The bytes of a peer.
pub open spec fn peer_bytes(p: Peer) -> Seq<u8> {
    p.name@ + addr_bytes(p.addr)
}

/// The bytes of a run of peers, one after the other.
pub open spec fn peers_bytes(ps: Seq<Peer>) -> Seq<u8>
    decreases ps.len(),
{
    if ps.len() == 0 {
        Seq::empty()
    } else {
        peers_bytes(ps.drop_last()) + peer_bytes(ps.last())
    }
}

/// One byte per bit of a prefix.
pub open spec fn bits_bytes(bits: Seq<bool>) -> Seq<u8> {
    bits.map_values(|b: bool| if b { 1u8 } else { 0u8 })
}

/// The bytes of a 64-bit number, least significant first.
pub open spec fn u64_le(x: u64) -> Seq<u8> {
    u32_le((x % 0x1_0000_0000) as u32) + u32_le((x / 0x1_0000_0000) as u32)
}

/// The bytes that a section key signs to vouch for a SAP.
pub open spec fn sap_bytes(s: SectionAuthorityProvider) -> Seq<u8> {
    u32_le(s.prefix@.len() as u32) + bits_bytes(s.prefix@) + s.section_key@ + u64_le(s.members_count)
        + u64_le(s.generation) + u32_le(s.elders@.len() as u32) + peers_bytes(s.elders@)
}

/// The bytes of an optional name: a presence byte, then the name or 32 zeros.
pub open spec fn opt_name_bytes(n: Option<XorName>) -> Seq<u8> {
    match n {
        Some(x) => seq![1u8] + x@,
        None => seq![0u8] + Seq::new(32, |i: int| 0u8),
    }
}

/// The bytes of a membership state.
pub open spec fn state_bytes(s: MembershipState) -> Seq<u8> {
    match s {
        MembershipState::Joined => seq![0u8] + Seq::new(32, |i: int| 0u8),
        MembershipState::Left => seq![1u8] + Seq::new(32, |i: int| 0u8),
        MembershipState::Relocated(d) => seq![2u8] + d@,
    }
}

/// The bytes that a section key signs to vouch for a member state.
pub open spec fn node_state_bytes(n: NodeState) -> Seq<u8> {
    n.name@ + addr_bytes(n.addr) + seq![n.age] + state_bytes(n.state) + opt_name_bytes(n.previous_name)
}

/// Appends the four little-endian bytes of `x`.
pub(crate) fn push_u32(out: &mut Vec<u8>, x: u32)
    ensures
        final(out)@ == old(out)@ + u32_le(x),
{
    out.push((x & 0xff) as u8);
    out.push(((x >> 8) & 0xff) as u8);
    out.push(((x >> 16) & 0xff) as u8);
    out.push(((x >> 24) & 0xff) as u8);
    assert(final(out)@ =~= old(out)@ + u32_le(x));
}

fn push_u64(out: &mut Vec<u8>, x: u64)
    ensures
        final(out)@ == old(out)@ + u64_le(x),
{
    push_u32(out, (x % 0x1_0000_0000) as u32);
    push_u32(out, (x / 0x1_0000_0000) as u32);
    assert(final(out)@ =~= old(out)@ + u64_le(x));
}

fn push_addr(out: &mut Vec<u8>, a: &PeerAddr)
    ensures
        final(out)@ == old(out)@ + addr_bytes(*a),
{
    push_all(out, &a.ip);
    push_u32(out, a.port as u32);
    assert(final(out)@ =~= old(out)@ + addr_bytes(*a));
}

fn push_opt_name(out: &mut Vec<u8>, n: &Option<XorName>)
    ensures
        final(out)@ == old(out)@ + opt_name_bytes(*n),
{
    match n {
        Some(x) => {
            out.push(1u8);
            push_all(out, &x.0);
        },
        None => {
            out.push(0u8);
            push_all(out, &[0u8; 32]);
        },
    }
    assert(final(out)@ =~= old(out)@ + opt_name_bytes(*n));
}

impl SectionAuthorityProvider {
    /// Well-formed: the prefix fits a name, elder names are unique, and the
    /// counts fit the encoding.
    pub open spec fn wf(&self) -> bool {
        &&& self.prefix.wf()
        &&& self.elders@.len() <= u32::MAX
        &&& forall|i: int, j: int|
            0 <= i < self.elders@.len() && 0 <= j < self.elders@.len() && i != j
                ==> (#[trigger] self.elders@[i]).name@ != (#[trigger] self.elders@[j]).name@
    }

    /// Whether this SAP is well-formed.
    pub fn check_wf(&self) -> (r: bool)
        ensures
            r == self.wf(),
    {
        if self.prefix.bits.len() > crate::xor_space::NAME_BITS || self.elders.len() > u32::MAX as usize {
            return false;
        }
        let mut i: usize = 0;
        while i < self.elders.len()
            invariant
                i <= self.elders@.len(),
                forall|a: int, b: int| 0 <= a < i && 0 <= b < self.elders@.len() && a != b
                    ==> (#[trigger] self.elders@[a]).name@ != (#[trigger] self.elders@[b]).name@,
            decreases self.elders@.len() - i,
        {
            let mut j: usize = 0;
            while j < self.elders.len()
                invariant
                    i < self.elders@.len(),
                    j <= self.elders@.len(),
                    forall|b: int| 0 <= b < j && b != i ==> self.elders@[i as int].name@ != (#[trigger] self.elders@[b]).name@,
                decreases self.elders@.len() - j,
            {
                if j != i && self.elders[i].name == self.elders[j].name {
                    return false;
                }
                j = j + 1;
            }
            i = i + 1;
        }
        true
    }

    /// The bytes that a section key signs to vouch for this SAP.
    pub fn signing_bytes(&self) -> (r: Vec<u8>)
        requires
            self.wf(),
        ensures
            r@ == sap_bytes(*self),
    {
        let mut out: Vec<u8> = Vec::new();
        push_u32(&mut out, self.prefix.bits.len() as u32);
        let mut i: usize = 0;
        let ghost h0 = out@;
        while i < self.prefix.bits.len()
            invariant
                i <= self.prefix@.len(),
                out@ == h0 + bits_bytes(self.prefix@.subrange(0, i as int)),
            decreases self.prefix@.len() - i,
        {
            out.push(if self.prefix.bits[i] { 1u8 } else { 0u8 });
            proof {
                assert(bits_bytes(self.prefix@.subrange(0, i + 1)) =~= bits_bytes(self.prefix@.subrange(0, i as int)).push(
                    if self.prefix@[i as int] { 1u8 } else { 0u8 }));
            }
            i = i + 1;
        }
        proof {
            assert(self.prefix@.subrange(0, self.prefix@.len() as int) =~= self.prefix@);
        }
        push_all(&mut out, &self.section_key.0);
        push_u64(&mut out, self.members_count);
        push_u64(&mut out, self.generation);
        push_u32(&mut out, self.elders.len() as u32);
        let ghost h1 = out@;
        let mut k: usize = 0;
        while k < self.elders.len()
            invariant
                k <= self.elders@.len(),
                out@ == h1 + peers_bytes(self.elders@.subrange(0, k as int)),
            decreases self.elders@.len() - k,
        {
            let p = self.elders[k];
            push_all(&mut out, &p.name.0);
            push_addr(&mut out, &p.addr);
            proof {
                let s = self.elders@.subrange(0, k + 1);
                assert(s.drop_last() =~= self.elders@.subrange(0, k as int));
                assert(out@ =~= h1 + peers_bytes(s));
            }
            k = k + 1;
        }
        proof {
            assert(self.elders@.subrange(0, self.elders@.len() as int) =~= self.elders@);
            assert(out@ =~= sap_bytes(*self));
        }
        out
    }

    /// A copy of this SAP.
    pub fn copy(&self) -> (r: SectionAuthorityProvider)
        ensures
            r.prefix@ == self.prefix@,
            r.section_key == self.section_key,
            r.elders@ == self.elders@,
            r.members_count == self.members_count,
            r.generation == self.generation,
    {
        let mut elders: Vec<Peer> = Vec::new();
        let mut i: usize = 0;
        while i < self.elders.len()
            invariant
                i <= self.elders@.len(),
                elders@ == self.elders@.subrange(0, i as int),
            decreases self.elders@.len() - i,
        {
            elders.push(self.elders[i]);
            i = i + 1;
        }
        assert(elders@ =~= self.elders@);
        SectionAuthorityProvider {
            prefix: self.prefix.copy(),
            section_key: self.section_key,
            elders,
            members_count: self.members_count,
            generation: self.generation,
        }
    }
}

/// The value of a signed SAP, field by field.
pub struct SapView {
    pub prefix: Seq<bool>,
    pub section_key: Seq<u8>,
    pub elders: Seq<Peer>,
    pub members_count: u64,
    pub generation: u64,
    pub sig_key: Seq<u8>,
    pub signature: Seq<u8>,
}

impl View for SignedSap {
    type V = SapView;

    open spec fn view(&self) -> SapView {
        SapView {
            prefix: self.sap.prefix@,
            section_key: self.sap.section_key@,
            elders: self.sap.elders@,
            members_count: self.sap.members_count,
            generation: self.sap.generation,
            sig_key: self.sig.public_key@,
            signature: self.sig.signature@,
        }
    }
}

impl SignedSap {
    /// The signature verifies under the key that it names.
    pub open spec fn sig_valid(&self) -> bool {
        bls_signature_valid(self.sig.public_key@, self.sig.signature@, sap_bytes(self.sap))
    }

    /// Whether the signature verifies under the key that it names.
    pub fn verify_sig(&self) -> (r: bool)
        requires
            self.sap.wf(),
        ensures
            r == self.sig_valid(),
    {
        let bytes = self.sap.signing_bytes();
        self.sig.public_key.verify(&self.sig.signature, bytes.as_slice())
    }

    /// A copy of this signed SAP.
    pub fn copy(&self) -> (r: SignedSap)
        ensures
            r@ == self@,
            r.sap.wf() == self.sap.wf(),
    {
        SignedSap { sap: self.sap.copy(), sig: self.sig }
    }
}

impl NodeState {
    /// The bytes that a section key signs to vouch for this member state.
    pub fn signing_bytes(&self) -> (r: Vec<u8>)
        ensures
            r@ == node_state_bytes(*self),
    {
        let mut out: Vec<u8> = Vec::new();
        push_all(&mut out, &self.name.0);
        push_addr(&mut out, &self.addr);
        out.push(self.age);
        match self.state {
            MembershipState::Joined => {
                out.push(0u8);
                push_all(&mut out, &[0u8; 32]);
            },
            MembershipState::Left => {
                out.push(1u8);
                push_all(&mut out, &[0u8; 32]);
            },
            MembershipState::Relocated(d) => {
                out.push(2u8);
                push_all(&mut out, &d.0);
            },
        }
        push_opt_name(&mut out, &self.previous_name);
        proof {
            assert(out@ =~= node_state_bytes(*self));
        }
        out
    }
}

impl SignedNodeState {
    /// The signature verifies under the key that it names.
    pub open spec fn sig_valid(&self) -> bool {
        bls_signature_valid(self.sig.public_key@, self.sig.signature@, node_state_bytes(self.node))
    }

    /// Whether the signature verifies under the key that it names.
    pub fn verify_sig(&self) -> (r: bool)
        ensures
            r == self.sig_valid(),
    {
        let bytes = self.node.signing_bytes();
        self.sig.public_key.verify(&self.sig.signature, bytes.as_slice())
    }
}

} // verus!
