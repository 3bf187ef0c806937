//! Names in the XOR space, prefixes of names, and XOR distance.
use vstd::prelude::*;

verus! {

broadcast use vstd::array::group_array_axioms;

/// Number of bytes in a name.
pub const NAME_LEN: usize = 32;

/// Number of bits in a name.
pub const NAME_BITS: usize = 256;

/// A 256-bit identifier; the network's metric is XOR distance between names.
#[derive(Clone, Copy, Debug)]
pub struct XorName(pub [u8; 32]);

impl View for XorName {
    type V = Seq<u8>;

    open spec fn view(&self) -> Seq<u8> {
        self.0@
    }
}

/// Bit `i` of a name, counted from the most significant bit of the first byte.
pub open spec fn name_bit(n: Seq<u8>, i: int) -> bool {
    (n[i / 8] >> ((7 - i % 8) as u8)) & 1u8 == 1u8
}

/// Compares the XOR distances of `a` and `b` to `t`, from byte `i` on:
/// negative when `a` is closer, positive when `b` is closer, zero when equal.
pub open spec fn xor_cmp_from(t: Seq<u8>, a: Seq<u8>, b: Seq<u8>, i: int) -> int
    decreases 32 - i,
{
    if i >= 32 || i < 0 {
        0
    } else if (a[i] ^ t[i]) < (b[i] ^ t[i]) {
        -1
    } else if (a[i] ^ t[i]) > (b[i] ^ t[i]) {
        1
    } else {
        xor_cmp_from(t, a, b, i + 1)
    }
}

/// Compares the XOR distances of `a` and `b` to `t`.
pub open spec fn xor_cmp(t: Seq<u8>, a: Seq<u8>, b: Seq<u8>) -> int {
    xor_cmp_from(t, a, b, 0)
}

/// The comparison is a total preorder: it is transitive.
pub proof fn lemma_xor_cmp_transitive(t: Seq<u8>, a: Seq<u8>, b: Seq<u8>, c: Seq<u8>, i: int)
    requires
        0 <= i,
        xor_cmp_from(t, a, b, i) <= 0,
        xor_cmp_from(t, b, c, i) <= 0,
    ensures
        xor_cmp_from(t, a, c, i) <= 0,
    decreases 32 - i,
{
    if i < 32 && (a[i] ^ t[i]) == (b[i] ^ t[i]) && (b[i] ^ t[i]) == (c[i] ^ t[i]) {
        lemma_xor_cmp_transitive(t, a, b, c, i + 1);
    }
}

/// The comparison is antisymmetric.
pub proof fn lemma_xor_cmp_flip(t: Seq<u8>, a: Seq<u8>, b: Seq<u8>, i: int)
    requires
        0 <= i,
    ensures
        xor_cmp_from(t, a, b, i) == -xor_cmp_from(t, b, a, i),
    decreases 32 - i,
{
    if i < 32 {
        lemma_xor_cmp_flip(t, a, b, i + 1);
    }
}

/// Byte-wise equality of two arrays.
pub fn bytes_equal<const N: usize>(a: &[u8; N], b: &[u8; N]) -> (r: bool)
    ensures
        r == (a@ == b@),
{
    let mut i: usize = 0;
    while i < N
        invariant
            i <= N,
            a@.len() == N,
            b@.len() == N,
            forall|j: int| 0 <= j < i ==> a@[j] == b@[j],
        decreases N - i,
    {
        if a[i] != b[i] {
            return false;
        }
        i = i + 1;
    }
    assert(a@ =~= b@);
    true
}

impl PartialEq for XorName {
    fn eq(&self, other: &XorName) -> (r: bool) {
        bytes_equal(&self.0, &other.0)
    }
}

impl vstd::std_specs::cmp::PartialEqSpecImpl for XorName {
    open spec fn obeys_eq_spec() -> bool {
        true
    }

    open spec fn eq_spec(&self, other: &XorName) -> bool {
        self@ == other@
    }
}

impl XorName {
    /// Bit `i` of this name.
    pub fn bit(&self, i: usize) -> (r: bool)
        requires
            i < NAME_BITS,
        ensures
            r == name_bit(self@, i as int),
    {
        let byte = self.0[i / 8];
        (byte >> ((7 - i % 8) as u8)) & 1u8 == 1u8
    }

    /// Compares the distances of `lhs` and `rhs` to this name: -1 when `lhs`
    /// is closer, 1 when `rhs` is closer, 0 when they are at equal distance.
    pub fn cmp_distance(&self, lhs: &XorName, rhs: &XorName) -> (r: i8)
        ensures
            r as int == xor_cmp(self@, lhs@, rhs@),
    {
        let mut i: usize = 0;
        while i < NAME_LEN
            invariant
                i <= NAME_LEN,
                xor_cmp(self@, lhs@, rhs@) == xor_cmp_from(self@, lhs@, rhs@, i as int),
            decreases NAME_LEN - i,
        {
            let l = lhs.0[i] ^ self.0[i];
            let r = rhs.0[i] ^ self.0[i];
            if l < r {
                return -1;
            } else if l > r {
                return 1;
            }
            i = i + 1;
        }
        0
    }
}

/// A prefix of the name space: the names whose leading bits are `bits`.
#[derive(Clone, Debug)]
pub struct Prefix {
    pub bits: Vec<bool>,
}

impl View for Prefix {
    type V = Seq<bool>;

    open spec fn view(&self) -> Seq<bool> {
        self.bits@
    }
}

/// `p` is the leading part of `name`.
pub open spec fn prefix_matches(p: Seq<bool>, name: Seq<u8>) -> bool {
    forall|i: int| 0 <= i < p.len() ==> p[i] == name_bit(name, i)
}

/// `a` is a (not necessarily strict) leading part of `b`.
pub open spec fn is_extension_of(b: Seq<bool>, a: Seq<bool>) -> bool {
    a.len() <= b.len() && b.subrange(0, a.len() as int) == a
}

/// The prefix of equal length that differs only in the last bit.
pub open spec fn sibling_of(p: Seq<bool>) -> Seq<bool> {
    if p.len() == 0 {
        p
    } else {
        p.update(p.len() - 1, !p[p.len() - 1])
    }
}

/// Element-wise equality of two bit vectors.
pub fn bools_equal(a: &Vec<bool>, b: &Vec<bool>) -> (r: bool)
    ensures
        r == (a@ == b@),
{
    if a.len() != b.len() {
        return false;
    }
    let mut i: usize = 0;
    while i < a.len()
        invariant
            i <= a.len() == b.len(),
            forall|j: int| 0 <= j < i ==> a@[j] == b@[j],
        decreases a.len() - i,
    {
        if a[i] != b[i] {
            return false;
        }
        i = i + 1;
    }
    assert(a@ =~= b@);
    true
}

impl PartialEq for Prefix {
    fn eq(&self, other: &Prefix) -> (r: bool) {
        bools_equal(&self.bits, &other.bits)
    }
}

impl vstd::std_specs::cmp::PartialEqSpecImpl for Prefix {
    open spec fn obeys_eq_spec() -> bool {
        true
    }

    open spec fn eq_spec(&self, other: &Prefix) -> bool {
        self@ == other@
    }
}

impl Prefix {
    /// Well-formed: no longer than a name.
    pub open spec fn wf(&self) -> bool {
        self@.len() <= NAME_BITS
    }

    /// The prefix that every name matches.
    pub fn root() -> (r: Prefix)
        ensures
            r@ == Seq::<bool>::empty(),
            r.wf(),
    {
        Prefix { bits: Vec::new() }
    }

    /// The prefix with the given bits.
    pub fn from_bits(bits: Vec<bool>) -> (r: Prefix)
        ensures
            r@ == bits@,
    {
        Prefix { bits }
    }

    /// Number of bits in the prefix.
    pub fn bit_count(&self) -> (r: usize)
        ensures
            r == self@.len(),
    {
        self.bits.len()
    }

    /// A copy of this prefix.
    pub fn copy(&self) -> (r: Prefix)
        ensures
            r@ == self@,
    {
        let mut bits: Vec<bool> = Vec::new();
        let mut i: usize = 0;
        while i < self.bits.len()
            invariant
                i <= self.bits.len(),
                bits@ == self@.subrange(0, i as int),
            decreases self.bits.len() - i,
        {
            bits.push(self.bits[i]);
            i = i + 1;
        }
        assert(bits@ =~= self@);
        Prefix { bits }
    }

    /// The prefix extended by one bit.
    pub fn pushed(&self, bit: bool) -> (r: Prefix)
        ensures
            r@ == self@.push(bit),
    {
        let mut r = self.copy();
        r.bits.push(bit);
        r
    }

    /// Whether `name` falls under this prefix.
    pub fn matches(&self, name: &XorName) -> (r: bool)
        requires
            self.wf(),
        ensures
            r == prefix_matches(self@, name@),
    {
        let mut i: usize = 0;
        while i < self.bits.len()
            invariant
                i <= self.bits.len() <= NAME_BITS,
                forall|j: int| 0 <= j < i ==> self@[j] == name_bit(name@, j),
            decreases self.bits.len() - i,
        {
            if self.bits[i] != name.bit(i) {
                return false;
            }
            i = i + 1;
        }
        true
    }

    /// Whether this prefix starts with `other` (equal prefixes included).
    pub fn is_extension_of(&self, other: &Prefix) -> (r: bool)
        ensures
            r == is_extension_of(self@, other@),
    {
        if other.bits.len() > self.bits.len() {
            return false;
        }
        let mut i: usize = 0;
        while i < other.bits.len()
            invariant
                i <= other.bits.len() <= self.bits.len(),
                forall|j: int| 0 <= j < i ==> self@[j] == other@[j],
            decreases other.bits.len() - i,
        {
            if self.bits[i] != other.bits[i] {
                assert(self@.subrange(0, other@.len() as int)[i as int] != other@[i as int]);
                return false;
            }
            i = i + 1;
        }
        assert(self@.subrange(0, other@.len() as int) =~= other@);
        true
    }

    /// The sibling prefix: equal length, last bit flipped. The root is its own sibling.
    pub fn sibling(&self) -> (r: Prefix)
        ensures
            r@ == sibling_of(self@),
    {
        let mut r = self.copy();
        let n = r.bits.len();
        if n > 0 {
            let last = r.bits[n - 1];
            r.bits.set(n - 1, !last);
        }
        r
    }
}

} // verus!
