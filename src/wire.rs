//! The wire message and its byte layout.
//!
//! Layout: msg id (16) | kind tag (1) | kind name (32) | is_join (1) | is_ae (1)
//! | dst name (32) | dst section key (48) | priority (4, little endian) | payload (rest).
use vstd::prelude::*;
use crate::keys::SectionKey;
use crate::xor_space::XorName;

verus! {

broadcast use vstd::array::group_array_axioms;

/// Length of the fixed header that precedes the payload.
pub const HEADER_LEN: usize = 135;

/// Where a message is headed, as the sender believes: the name it is for and
/// the key of the section that it believes holds that name.
#[derive(Clone, Copy, Debug)]
pub struct Dst {
    pub name: XorName,
    pub section_key: SectionKey,
}

/// The kind of a wire message, with the name of its sender.
#[derive(Clone, Copy, Debug)]
pub enum MsgKind {
    Node { name: XorName, is_join: bool, is_ae: bool },
    NodeDataResponse { name: XorName },
    Client { name: XorName },
    ClientDataResponse { name: XorName },
}

/// A message as it travels between peers.
#[derive(Clone, Debug)]
pub struct WireMsg {
    pub msg_id: [u8; 16],
    pub kind: MsgKind,
    pub dst: Dst,
    pub priority: i32,
    pub payload: Vec<u8>,
}

/// Why bytes could not be read as a wire message.
#[derive(Clone, Copy, Debug, PartialEq, Eq, Structural)]
pub enum WireError {
    /// Fewer bytes than the header needs.
    TooShort,
    /// The kind tag is not one of the four kinds.
    InvalidKind,
    /// A flag byte is neither 0 nor 1.
    InvalidFlag,
}

/// The value of a wire message, field by field.
pub struct WireMsgView {
    pub msg_id: Seq<u8>,
    pub kind_tag: u8,
    pub sender: Seq<u8>,
    pub is_join: bool,
    pub is_ae: bool,
    pub dst_name: Seq<u8>,
    pub dst_key: Seq<u8>,
    pub priority: i32,
    pub payload: Seq<u8>,
}

impl MsgKind {
    pub open spec fn tag(&self) -> u8 {
        match self {
            MsgKind::Node { .. } => 0,
            MsgKind::NodeDataResponse { .. } => 1,
            MsgKind::Client { .. } => 2,
            MsgKind::ClientDataResponse { .. } => 3,
        }
    }

    pub open spec fn sender(&self) -> Seq<u8> {
        match self {
            MsgKind::Node { name, .. } => name@,
            MsgKind::NodeDataResponse { name } => name@,
            MsgKind::Client { name } => name@,
            MsgKind::ClientDataResponse { name } => name@,
        }
    }

    pub open spec fn join_flag(&self) -> bool {
        match self {
            MsgKind::Node { is_join, .. } => *is_join,
            _ => false,
        }
    }

    pub open spec fn ae_flag(&self) -> bool {
        match self {
            MsgKind::Node { is_ae, .. } => *is_ae,
            _ => false,
        }
    }
}

impl View for WireMsg {
    type V = WireMsgView;

    open spec fn view(&self) -> WireMsgView {
        WireMsgView {
            msg_id: self.msg_id@,
            kind_tag: self.kind.tag(),
            sender: self.kind.sender(),
            is_join: self.kind.join_flag(),
            is_ae: self.kind.ae_flag(),
            dst_name: self.dst.name@,
            dst_key: self.dst.section_key@,
            priority: self.priority,
            payload: self.payload@,
        }
    }
}

/// The four bytes of `x`, least significant first.
pub open spec fn u32_le(x: u32) -> Seq<u8> {
    seq![(x & 0xff) as u8, ((x >> 8) & 0xff) as u8, ((x >> 16) & 0xff) as u8, ((x >> 24) & 0xff) as u8]
}

/// The number whose little-endian bytes are `b[0..4]`.
pub open spec fn le_u32(b: Seq<u8>) -> u32 {
    (b[0] as u32) | ((b[1] as u32) << 8) | ((b[2] as u32) << 16) | ((b[3] as u32) << 24)
}

pub open spec fn flag_byte(b: bool) -> u8 {
    if b { 1 } else { 0 }
}

/// The header of a wire message with the given view.
pub open spec fn header_bytes(v: WireMsgView) -> Seq<u8> {
    v.msg_id + seq![v.kind_tag] + v.sender + seq![flag_byte(v.is_join), flag_byte(v.is_ae)]
        + v.dst_name + v.dst_key + u32_le(v.priority as u32)
}

/// The bytes of a wire message with the given view.
pub open spec fn wire_bytes(v: WireMsgView) -> Seq<u8> {
    header_bytes(v) + v.payload
}

/// A view is that of a message: the field lengths are right, the kind tag is
/// one of the four kinds, and only node messages carry flags.
pub open spec fn view_wf(v: WireMsgView) -> bool {
    &&& v.msg_id.len() == 16
    &&& v.sender.len() == 32
    &&& v.dst_name.len() == 32
    &&& v.dst_key.len() == 48
    &&& v.kind_tag <= 3
    &&& (v.kind_tag != 0 ==> !v.is_join && !v.is_ae)
}

/// Bytes that `deserialize` accepts.
pub open spec fn bytes_wf(b: Seq<u8>) -> bool {
    &&& b.len() >= HEADER_LEN
    &&& b[16] <= 3
    &&& flags_wf(b)
}

/// The flag bytes are 0 or 1, and 0 for any kind but a node message.
pub open spec fn flags_wf(b: Seq<u8>) -> bool {
    &&& b[49] <= 1
    &&& b[50] <= 1
    &&& (b[16] != 0 ==> b[49] == 0 && b[50] == 0)
}

/// The message that well-formed bytes hold.
pub open spec fn view_of_bytes(b: Seq<u8>) -> WireMsgView {
    WireMsgView {
        msg_id: b.subrange(0, 16),
        kind_tag: b[16],
        sender: b.subrange(17, 49),
        is_join: b[16] == 0 && b[49] == 1,
        is_ae: b[16] == 0 && b[50] == 1,
        dst_name: b.subrange(51, 83),
        dst_key: b.subrange(83, 131),
        priority: le_u32(b.subrange(131, 135)) as i32,
        payload: b.subrange(135, b.len() as int),
    }
}

pub proof fn lemma_u32_round_trip(x: u32)
    ensures
        le_u32(u32_le(x)) == x,
{
    let b0 = (x & 0xff) as u8;
    let b1 = ((x >> 8) & 0xff) as u8;
    let b2 = ((x >> 16) & 0xff) as u8;
    let b3 = ((x >> 24) & 0xff) as u8;
    assert(((b0 as u32) | ((b1 as u32) << 8) | ((b2 as u32) << 16) | ((b3 as u32) << 24)) == x) by (bit_vector)
        requires
            b0 == (x & 0xff) as u8,
            b1 == ((x >> 8) & 0xff) as u8,
            b2 == ((x >> 16) & 0xff) as u8,
            b3 == ((x >> 24) & 0xff) as u8,
    ;
}

pub proof fn lemma_i32_round_trip(x: i32)
    ensures
        (x as u32) as i32 == x,
{
    assert((x as u32) as i32 == x) by (bit_vector);
}

/// Reading the bytes of a message gives the message back.
pub proof fn lemma_wire_round_trip(v: WireMsgView)
    requires
        view_wf(v),
    ensures
        bytes_wf(wire_bytes(v)),
        view_of_bytes(wire_bytes(v)) == v,
{
    let b = wire_bytes(v);
    let h = header_bytes(v);
    assert(h.len() == HEADER_LEN);
    lemma_u32_round_trip(v.priority as u32);
    lemma_i32_round_trip(v.priority);
    assert(b.subrange(0, 16) =~= v.msg_id);
    assert(b.subrange(17, 49) =~= v.sender);
    assert(b.subrange(51, 83) =~= v.dst_name);
    assert(b.subrange(83, 131) =~= v.dst_key);
    assert(b.subrange(131, 135) =~= u32_le(v.priority as u32));
    assert(b.subrange(135, b.len() as int) =~= v.payload);
    assert(b[16] == v.kind_tag);
    assert(b[49] == flag_byte(v.is_join));
    assert(b[50] == flag_byte(v.is_ae));
}

/// Writing the message that well-formed bytes hold gives the bytes back.
pub proof fn lemma_bytes_round_trip(b: Seq<u8>)
    requires
        bytes_wf(b),
    ensures
        view_wf(view_of_bytes(b)),
        wire_bytes(view_of_bytes(b)) == b,
{
    let v = view_of_bytes(b);
    {
        let p = le_u32(b.subrange(131, 135));
        lemma_i32_round_trip_u(p);
        let b0 = b[131];
        let b1 = b[132];
        let b2 = b[133];
        let b3 = b[134];
        assert(u32_le(p) =~= b.subrange(131, 135)) by {
            assert(((((b0 as u32) | ((b1 as u32) << 8) | ((b2 as u32) << 16) | ((b3 as u32) << 24)) & 0xff) as u8) == b0
                && (((((b0 as u32) | ((b1 as u32) << 8) | ((b2 as u32) << 16) | ((b3 as u32) << 24)) >> 8) & 0xff) as u8) == b1
                && (((((b0 as u32) | ((b1 as u32) << 8) | ((b2 as u32) << 16) | ((b3 as u32) << 24)) >> 16) & 0xff) as u8) == b2
                && (((((b0 as u32) | ((b1 as u32) << 8) | ((b2 as u32) << 16) | ((b3 as u32) << 24)) >> 24) & 0xff) as u8) == b3) by (bit_vector);
        }
        assert(wire_bytes(v) =~= b);
    }
}

/// Giving a message a new destination and reading the bytes back yields the
/// message with the new destination and all else, the payload included, unchanged.
pub proof fn lemma_new_dst_round_trip(m: WireMsg, dst: Dst)
    ensures
        bytes_wf(wire_bytes(WireMsgView { dst_name: dst.name@, dst_key: dst.section_key@, ..m@ })),
        view_of_bytes(wire_bytes(WireMsgView { dst_name: dst.name@, dst_key: dst.section_key@, ..m@ }))
            == (WireMsgView { dst_name: dst.name@, dst_key: dst.section_key@, ..m@ }),
{
    lemma_wire_round_trip(WireMsgView { dst_name: dst.name@, dst_key: dst.section_key@, ..m@ });
}

pub proof fn lemma_i32_round_trip_u(x: u32)
    ensures
        (x as i32) as u32 == x,
{
    assert((x as i32) as u32 == x) by (bit_vector);
}

/// Appends the bytes of `a` to `out`.
pub(crate) fn push_all<const N: usize>(out: &mut Vec<u8>, a: &[u8; N])
    ensures
        final(out)@ == old(out)@ + a@,
{
    let mut i: usize = 0;
    while i < N
        invariant
            i <= N,
            a@.len() == N,
            out@ == old(out)@ + a@.subrange(0, i as int),
        decreases N - i,
    {
        out.push(a[i]);
        proof {
            assert(a@.subrange(0, i + 1) =~= a@.subrange(0, i as int).push(a@[i as int]));
        }
        i = i + 1;
    }
    assert(a@.subrange(0, N as int) =~= a@);
}

/// The bytes `b[off..off + N]` as an array.
fn read_array<const N: usize>(b: &[u8], off: usize) -> (r: [u8; N])
    requires
        off + N <= b@.len(),
    ensures
        r@ == b@.subrange(off as int, off + N),
{
    let mut r = [0u8; N];
    let n = b.len();
    let mut i: usize = 0;
    while i < N
        invariant
            n == b@.len(),
            i <= N,
            off + N <= b@.len(),
            r@.len() == N,
            forall|j: int| 0 <= j < i ==> r@[j] == b@[off + j],
        decreases N - i,
    {
        r[i] = b[off + i];
        i = i + 1;
    }
    assert(r@ =~= b@.subrange(off as int, off + N));
    r
}

impl MsgKind {
    fn tag_exec(&self) -> (r: u8)
        ensures
            r == self.tag(),
    {
        match self {
            MsgKind::Node { .. } => 0,
            MsgKind::NodeDataResponse { .. } => 1,
            MsgKind::Client { .. } => 2,
            MsgKind::ClientDataResponse { .. } => 3,
        }
    }

    /// The name of the sender.
    pub fn sender_name(&self) -> (r: XorName)
        ensures
            r@ == self.sender(),
    {
        match self {
            MsgKind::Node { name, .. } => *name,
            MsgKind::NodeDataResponse { name } => *name,
            MsgKind::Client { name } => *name,
            MsgKind::ClientDataResponse { name } => *name,
        }
    }

    fn flags(&self) -> (r: (bool, bool))
        ensures
            r == (self.join_flag(), self.ae_flag()),
    {
        match self {
            MsgKind::Node { is_join, is_ae, .. } => (*is_join, *is_ae),
            _ => (false, false),
        }
    }
}

impl WireMsg {
    /// The view of every message is well-formed.
    pub proof fn lemma_view_wf(&self)
        ensures
            view_wf(self@),
    {
    }

    /// The message's id.
    pub fn msg_id(&self) -> (r: [u8; 16])
        ensures
            r@ == self@.msg_id,
    {
        self.msg_id
    }

    /// The message's destination.
    pub fn dst(&self) -> (r: Dst)
        ensures
            r.name@ == self@.dst_name,
            r.section_key@ == self@.dst_key,
    {
        self.dst
    }

    /// The message's priority.
    pub fn priority(&self) -> (r: i32)
        ensures
            r == self@.priority,
    {
        self.priority
    }

    /// The bytes of this message with `dst` in place of its destination.
    pub fn serialize_with_new_dst(&self, dst: &Dst) -> (r: Vec<u8>)
        ensures
            r@ == wire_bytes(WireMsgView { dst_name: dst.name@, dst_key: dst.section_key@, ..self@ }),
    {
        let mut out: Vec<u8> = Vec::new();
        push_all(&mut out, &self.msg_id);
        out.push(self.kind.tag_exec());
        push_all(&mut out, &self.kind.sender_name().0);
        let (j, a) = self.kind.flags();
        out.push(if j { 1u8 } else { 0u8 });
        out.push(if a { 1u8 } else { 0u8 });
        push_all(&mut out, &dst.name.0);
        push_all(&mut out, &dst.section_key.0);
        let p = self.priority as u32;
        out.push((p & 0xff) as u8);
        out.push(((p >> 8) & 0xff) as u8);
        out.push(((p >> 16) & 0xff) as u8);
        out.push(((p >> 24) & 0xff) as u8);
        let mut i: usize = 0;
        let ghost h = out@;
        while i < self.payload.len()
            invariant
                i <= self.payload@.len(),
                out@ == h + self.payload@.subrange(0, i as int),
            decreases self.payload@.len() - i,
        {
            out.push(self.payload[i]);
            proof {
                assert(self.payload@.subrange(0, i + 1) =~= self.payload@.subrange(0, i as int).push(self.payload@[i as int]));
            }
            i = i + 1;
        }
        proof {
            let v = WireMsgView { dst_name: dst.name@, dst_key: dst.section_key@, ..self@ };
            assert(self.payload@.subrange(0, self.payload@.len() as int) =~= self.payload@);
            assert(h =~= header_bytes(v));
            assert(out@ =~= wire_bytes(v));
        }
        out
    }

    /// The bytes of this message.
    pub fn serialize(&self) -> (r: Vec<u8>)
        ensures
            r@ == wire_bytes(self@),
    {
        let r = self.serialize_with_new_dst(&self.dst);
        proof {
            assert(WireMsgView { dst_name: self.dst.name@, dst_key: self.dst.section_key@, ..self@ } == self@);
        }
        r
    }

    /// Reads a message from its bytes.
    pub fn deserialize(b: &[u8]) -> (r: Result<WireMsg, WireError>)
        ensures
            r.is_ok() <==> bytes_wf(b@),
            r.is_ok() ==> r.unwrap()@ == view_of_bytes(b@),
            r == Err::<WireMsg, WireError>(WireError::TooShort) <==> b@.len() < HEADER_LEN,
            r == Err::<WireMsg, WireError>(WireError::InvalidKind) <==> (b@.len() >= HEADER_LEN && b@[16] > 3),
            r == Err::<WireMsg, WireError>(WireError::InvalidFlag) <==> (b@.len() >= HEADER_LEN && b@[16] <= 3 && !flags_wf(b@)),
    {
        if b.len() < HEADER_LEN {
            return Err(WireError::TooShort);
        }
        let tag = b[16];
        if tag > 3 {
            return Err(WireError::InvalidKind);
        }
        let fj = b[49];
        let fa = b[50];
        if fj > 1 || fa > 1 || (tag != 0 && (fj != 0 || fa != 0)) {
            return Err(WireError::InvalidFlag);
        }
        let msg_id: [u8; 16] = read_array(b, 0);
        let sender = XorName(read_array(b, 17));
        let kind = if tag == 0 {
            MsgKind::Node { name: sender, is_join: fj == 1, is_ae: fa == 1 }
        } else if tag == 1 {
            MsgKind::NodeDataResponse { name: sender }
        } else if tag == 2 {
            MsgKind::Client { name: sender }
        } else {
            MsgKind::ClientDataResponse { name: sender }
        };
        let dst = Dst { name: XorName(read_array(b, 51)), section_key: SectionKey(read_array(b, 83)) };
        let p: u32 = (b[131] as u32) | ((b[132] as u32) << 8) | ((b[133] as u32) << 16) | ((b[134] as u32) << 24);
        let mut payload: Vec<u8> = Vec::new();
        let mut i: usize = HEADER_LEN;
        while i < b.len()
            invariant
                HEADER_LEN <= i <= b@.len(),
                payload@ == b@.subrange(HEADER_LEN as int, i as int),
            decreases b@.len() - i,
        {
            payload.push(b[i]);
            proof {
                assert(b@.subrange(HEADER_LEN as int, i + 1) =~= b@.subrange(HEADER_LEN as int, i as int).push(b@[i as int]));
            }
            i = i + 1;
        }
        let m = WireMsg { msg_id, kind, dst, priority: p as i32, payload };
        proof {
            assert(m@ =~= view_of_bytes(b@));
        }
        Ok(m)
    }
}

} // verus!
