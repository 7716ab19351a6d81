//! The file hash: digesting, integer packing, and the URL-safe text form.

use advent_of_wasm::hash::FileHash;

#[test]
fn hashing_is_deterministic() {
    let a = FileHash::new(b"hello world");
    let b = FileHash::new(b"hello world");
    assert_eq!(a, b);
}

#[test]
fn integer_form_round_trips() {
    let h = FileHash::new(b"some bytes");
    let back = FileHash::from_i64(h.as_i64());
    assert_eq!(h, back);
    // a value whose signed form is negative survives too
    let top = FileHash { value: u64::MAX - 12345 };
    assert!(top.as_i64() < 0);
    assert_eq!(FileHash::from_i64(top.as_i64()), top);
}

#[test]
fn base64_form_round_trips() {
    let h = FileHash::new(b"round trip me");
    let text = h.to_base64();
    // eight bytes render as eleven unpadded characters
    assert_eq!(text.len(), 11);
    let back = FileHash::from_base64(&text).unwrap();
    assert_eq!(h, back);
}

#[test]
fn base64_of_zero_is_all_a() {
    let h = FileHash { value: 0 };
    assert_eq!(h.to_base64(), "AAAAAAAAAAA");
}

#[test]
fn base64_rejects_malformed_text() {
    assert!(FileHash::from_base64("not base64 at all!").is_none());
    // valid base64, wrong length
    assert!(FileHash::from_base64("AAAA").is_none());
}
