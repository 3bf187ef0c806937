//! Section keys (BLS public keys) and signatures, held as their byte encodings.
use vstd::prelude::*;
use crate::xor_space::{bytes_equal, XorName};

verus! {

broadcast use vstd::array::group_array_axioms;

/// A section's BLS public key, in its 48-byte compressed form.
#[derive(Clone, Copy, Debug)]
pub struct SectionKey(pub [u8; 48]);

/// A BLS signature, in its 96-byte compressed form.
#[derive(Clone, Copy, Debug)]
pub struct Signature(pub [u8; 96]);

impl View for SectionKey {
    type V = Seq<u8>;

    open spec fn view(&self) -> Seq<u8> {
        self.0@
    }
}

impl View for Signature {
    type V = Seq<u8>;

    open spec fn view(&self) -> Seq<u8> {
        self.0@
    }
}

impl PartialEq for SectionKey {
    fn eq(&self, other: &SectionKey) -> (r: bool) {
        bytes_equal(&self.0, &other.0)
    }
}

impl vstd::std_specs::cmp::PartialEqSpecImpl for SectionKey {
    open spec fn obeys_eq_spec() -> bool {
        true
    }

    open spec fn eq_spec(&self, other: &SectionKey) -> bool {
        self@ == other@
    }
}

impl PartialEq for Signature {
    fn eq(&self, other: &Signature) -> (r: bool) {
        bytes_equal(&self.0, &other.0)
    }
}

impl vstd::std_specs::cmp::PartialEqSpecImpl for Signature {
    open spec fn obeys_eq_spec() -> bool {
        true
    }

    open spec fn eq_spec(&self, other: &Signature) -> bool {
        self@ == other@
    }
}

/// Whether `sig` is a valid BLS signature of `msg` under the public key `key`
/// (all three as bytes; a key or signature that does not decode is never valid).
pub uninterp spec fn bls_signature_valid(key: Seq<u8>, sig: Seq<u8>, msg: Seq<u8>) -> bool;

/// Relies on blsttc's `PublicKey::verify` (with `PublicKey::from_bytes` and
/// `Signature::from_bytes` to decode): whether the signature verifies depends
/// on the key, signature and message bytes alone.
#[verifier::external_body]
pub(crate) fn bls_verify(key: &SectionKey, sig: &Signature, msg: &[u8]) -> (r: bool)
    ensures
        r == bls_signature_valid(key@, sig@, msg@),
{
    match (blsttc::PublicKey::from_bytes(key.0), blsttc::Signature::from_bytes(sig.0)) {
        (Ok(pk), Ok(s)) => pk.verify(&s, msg),
        _ => false,
    }
}

/// The name of a key: its leading 32 bytes.
pub open spec fn key_name(k: Seq<u8>) -> Seq<u8> {
    k.subrange(0, 32)
}

impl SectionKey {
    /// Whether `sig` signs `msg` under this key.
    pub fn verify(&self, sig: &Signature, msg: &[u8]) -> (r: bool)
        ensures
            r == bls_signature_valid(self@, sig@, msg@),
    {
        bls_verify(self, sig, msg)
    }

    /// The key's bytes, as a vector: the message by which a parent key signs it.
    pub fn to_vec(&self) -> (r: Vec<u8>)
        ensures
            r@ == self@,
    {
        let mut v: Vec<u8> = Vec::new();
        let mut i: usize = 0;
        while i < 48
            invariant
                i <= 48,
                self@.len() == 48,
                v@ == self@.subrange(0, i as int),
            decreases 48 - i,
        {
            v.push(self.0[i]);
            i = i + 1;
        }
        assert(v@ =~= self@);
        v
    }

    /// The name in the XOR space that stands for this key.
    pub fn name(&self) -> (r: XorName)
        ensures
            r@ == key_name(self@),
    {
        let mut n = [0u8; 32];
        let mut i: usize = 0;
        while i < 32
            invariant
                i <= 32,
                self@.len() == 48,
                n@.len() == 32,
                forall|j: int| 0 <= j < i ==> n@[j] == self@[j],
            decreases 32 - i,
        {
            n[i] = self.0[i];
            i = i + 1;
        }
        assert(n@ =~= key_name(self@));
        XorName(n)
    }
}

} // verus!
