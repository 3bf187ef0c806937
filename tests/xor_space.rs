use sn_node::keys::SectionKey;
use sn_node::xor_space::{Prefix, XorName};

fn prefix(s: &str) -> Prefix {
    Prefix::from_bits(s.chars().map(|c| c == '1').collect())
}

#[test]
fn prefix_matches_leading_bits() {
    let n = XorName([0b1010_0000; 32]);
    assert!(prefix("").matches(&n));
    assert!(prefix("1").matches(&n));
    assert!(prefix("101").matches(&n));
    assert!(!prefix("11").matches(&n));
    assert!(!prefix("0").matches(&n));
}

#[test]
fn sibling_flips_the_last_bit() {
    assert_eq!(prefix("010").sibling(), prefix("011"));
    assert_eq!(prefix("1").sibling(), prefix("0"));
    assert_eq!(prefix("").sibling(), prefix(""));
    assert!(prefix("0110").is_extension_of(&prefix("01")));
    assert!(!prefix("01").is_extension_of(&prefix("0110")));
    assert_eq!(prefix("01").pushed(true), prefix("011"));
}

#[test]
fn cmp_distance_orders_by_xor() {
    let t = XorName([0; 32]);
    let mut a = [0u8; 32];
    a[31] = 1;
    let mut b = [0u8; 32];
    b[0] = 1;
    assert_eq!(t.cmp_distance(&XorName(a), &XorName(b)), -1);
    assert_eq!(t.cmp_distance(&XorName(b), &XorName(a)), 1);
    assert_eq!(t.cmp_distance(&XorName(a), &XorName(a)), 0);
    let t = XorName([0xff; 32]);
    assert_eq!(t.cmp_distance(&XorName(a), &XorName(b)), 1);
}

#[test]
fn key_name_is_the_leading_bytes() {
    let mut k = [0u8; 48];
    for (i, x) in k.iter_mut().enumerate() {
        *x = i as u8;
    }
    let n = SectionKey(k).name();
    assert_eq!(n.0[0], 0);
    assert_eq!(n.0[31], 31);
}
