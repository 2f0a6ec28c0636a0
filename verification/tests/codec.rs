use dd_trace_rust::codec::{
    bool_to_string, context_from_values, i64_to_string, parse_u64_dec, u64_to_dec_bytes,
    u64_to_string,
};
use dd_trace_rust::rust_version;

#[test]
fn test_decimal_rendering() {
    assert_eq!(u64_to_string(0), "0");
    assert_eq!(u64_to_string(7), "7");
    assert_eq!(u64_to_string(12345679), "12345679");
    assert_eq!(u64_to_string(u64::MAX), "18446744073709551615");
    assert_eq!(u64_to_dec_bytes(406), b"406".to_vec());
}

#[test]
fn test_signed_rendering() {
    assert_eq!(i64_to_string(0), "0");
    assert_eq!(i64_to_string(42), "42");
    assert_eq!(i64_to_string(-42), "-42");
    assert_eq!(i64_to_string(i64::MIN), "-9223372036854775808");
    assert_eq!(i64_to_string(i64::MAX), "9223372036854775807");
}

#[test]
fn test_bool_rendering() {
    assert_eq!(bool_to_string(true), "true");
    assert_eq!(bool_to_string(false), "false");
}

#[test]
fn test_parse_decimal() {
    assert_eq!(parse_u64_dec(b"0"), Some(0));
    assert_eq!(parse_u64_dec(b"007"), Some(7));
    assert_eq!(parse_u64_dec(b"12345679"), Some(12345679));
    assert_eq!(parse_u64_dec(b"18446744073709551615"), Some(u64::MAX));
    assert_eq!(parse_u64_dec(b""), None);
    assert_eq!(parse_u64_dec(b"12a"), None);
    assert_eq!(parse_u64_dec(b"-1"), None);
    assert_eq!(parse_u64_dec(b"18446744073709551616"), None);
    assert_eq!(parse_u64_dec(b"99999999999999999999999"), None);
}

#[test]
fn test_parse_inverts_encoding() {
    for v in [0u64, 1, 9, 10, 406, 12345679, u64::MAX] {
        assert_eq!(parse_u64_dec(&u64_to_dec_bytes(v)), Some(v));
    }
}

#[test]
fn test_context_from_values() {
    let ctx = context_from_values(Some(&b"12345679".to_vec()), None).unwrap();
    assert_eq!(ctx.trace_id, 12345679);
    assert_eq!(ctx.parent_id, 0);

    let ctx = context_from_values(Some(&b"5".to_vec()), Some(&b"9".to_vec())).unwrap();
    assert_eq!(ctx.trace_id, 5);
    assert_eq!(ctx.parent_id, 9);

    // A malformed parent id degrades to zero; a malformed or missing
    // trace id means no context at all.
    let ctx = context_from_values(Some(&b"5".to_vec()), Some(&b"x".to_vec())).unwrap();
    assert_eq!(ctx.parent_id, 0);
    assert!(context_from_values(None, Some(&b"9".to_vec())).is_none());
    assert!(context_from_values(Some(&b"nope".to_vec()), None).is_none());
}

#[test]
fn test_rust_version() {
    assert_eq!(rust_version("rustc 1.71.1 (eb26296b5 2023-08-03)"), "1.71.1");
    assert_eq!(rust_version("rustc 1.71.1"), "1.71.1");
    assert_eq!(rust_version("1.71.1 extra"), "1.71.1");
    assert_eq!(rust_version("1.71.1"), "1.71.1");
    assert_eq!(rust_version(""), "");
}
