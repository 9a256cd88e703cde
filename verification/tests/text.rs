//! Text forms of identifiers and numbers.

use tracing_axiom::text::{push_decimal, ser_hex, ser_opt_hex, HEX_LEN};

#[test]
fn trace_id_fills_the_field() {
    let id: [u8; 16] = [
        0x00, 0x01, 0x0f, 0x10, 0x7f, 0x80, 0xa5, 0xff, 0xde, 0xad, 0xbe, 0xef, 0x12, 0x34, 0x56,
        0x78,
    ];
    assert_eq!(ser_hex(&id), "00010f107f80a5ffdeadbeef12345678");
}

#[test]
fn shorter_id_is_padded_with_nul() {
    let id: [u8; 8] = [0xab, 0xcd, 0xef, 0x01, 0x23, 0x45, 0x67, 0x89];
    let text = ser_hex(&id);
    assert_eq!(text.len(), HEX_LEN);
    assert_eq!(&text[..16], "abcdef0123456789");
    assert!(text[16..].chars().all(|c| c == '\0'));
}

#[test]
fn empty_id_is_all_padding() {
    let text = ser_hex(&[]);
    assert_eq!(text.len(), 32);
    assert!(text.chars().all(|c| c == '\0'));
}

#[test]
fn ids_can_be_told_apart() {
    assert_ne!(ser_hex(&[0u8; 8]), ser_hex(&[0u8; 16]));
    assert_ne!(ser_hex(&[1u8, 0]), ser_hex(&[0u8, 1]));
}

#[test]
fn absent_id_has_no_text() {
    assert_eq!(ser_opt_hex::<8>(&None), None);
    assert_eq!(ser_opt_hex(&Some([0x5au8; 16])), Some(String::from("5a").repeat(16)));
}

#[test]
fn decimal_has_no_leading_zeros() {
    for n in [0u16, 7, 10, 99, 100, 302, 65535] {
        let mut out = String::from("n=");
        push_decimal(n, &mut out);
        assert_eq!(out, format!("n={}", n));
    }
}
