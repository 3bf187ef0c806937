use sn_node::keys::SectionKey;
use sn_node::wire::{Dst, MsgKind, WireError, WireMsg, HEADER_LEN};
use sn_node::xor_space::XorName;

fn msg() -> WireMsg {
    WireMsg {
        msg_id: [3; 16],
        kind: MsgKind::Node {
            name: XorName([9; 32]),
            is_join: true,
            is_ae: false,
        },
        dst: Dst {
            name: XorName([1; 32]),
            section_key: SectionKey([2; 48]),
        },
        priority: -7,
        payload: vec![10, 20, 30],
    }
}

#[test]
fn serialize_lays_out_header_then_payload() {
    let b = msg().serialize();
    assert_eq!(b.len(), HEADER_LEN + 3);
    assert_eq!(&b[0..16], &[3u8; 16]);
    assert_eq!(b[16], 0);
    assert_eq!(&b[17..49], &[9u8; 32]);
    assert_eq!(b[49], 1);
    assert_eq!(b[50], 0);
    assert_eq!(&b[51..83], &[1u8; 32]);
    assert_eq!(&b[83..131], &[2u8; 48]);
    assert_eq!(&b[131..135], &(-7i32).to_le_bytes());
    assert_eq!(&b[135..], &[10, 20, 30]);
}

#[test]
fn serialize_with_new_dst_round_trip() {
    let m = msg();
    let dst = Dst {
        name: XorName([0xaa; 32]),
        section_key: SectionKey([0xbb; 48]),
    };
    let bytes = m.serialize_with_new_dst(&dst);
    let back = WireMsg::deserialize(&bytes).expect("readable");
    assert_eq!(back.dst.name, dst.name);
    assert_eq!(back.dst.section_key, dst.section_key);
    assert_eq!(back.msg_id, m.msg_id);
    assert_eq!(back.priority, m.priority);
    assert_eq!(back.payload, m.payload);
    assert!(matches!(back.kind, MsgKind::Node { is_join: true, is_ae: false, .. }));
    assert_ne!(bytes, m.serialize());
}

#[test]
fn deserialize_rejects_short_input() {
    let b = msg().serialize();
    assert_eq!(WireMsg::deserialize(&b[..HEADER_LEN - 1]).err(), Some(WireError::TooShort));
    assert!(WireMsg::deserialize(&b[..HEADER_LEN]).is_ok());
}

#[test]
fn deserialize_rejects_unknown_kind() {
    let mut b = msg().serialize();
    b[16] = 4;
    assert_eq!(WireMsg::deserialize(&b).err(), Some(WireError::InvalidKind));
}

#[test]
fn deserialize_rejects_bad_flags() {
    let mut b = msg().serialize();
    b[50] = 2;
    assert_eq!(WireMsg::deserialize(&b).err(), Some(WireError::InvalidFlag));
    let mut b = msg().serialize();
    b[16] = 2;
    assert_eq!(WireMsg::deserialize(&b).err(), Some(WireError::InvalidFlag));
    b[49] = 0;
    let back = WireMsg::deserialize(&b).expect("client message");
    assert!(matches!(back.kind, MsgKind::Client { .. }));
}
