//! Context propagation codec.
//!
//! Trace context crosses a process boundary as decimal byte strings under
//! well-known carrier keys. This module holds the verified decimal
//! encoder and parser, the carrier keys, and the extraction rule that
//! turns looked-up carrier values into a remote [`SpanContext`].

use vstd::arithmetic::div_mod::lemma_fundamental_div_mod;
use vstd::prelude::*;
use vstd::string::*;

verus! {

/// The ASCII digit for a decimal value below ten.
pub open spec fn digit_byte(d: nat) -> u8 {
    (48 + d) as u8
}

/// The digit character for a decimal value below ten.
pub open spec fn digit_char(d: nat) -> char {
    digit_byte(d) as char
}

/// The shortest decimal byte string for `n` (no leading zeros).
pub open spec fn dec_bytes(n: nat) -> Seq<u8>
    decreases n,
{
    if n < 10 {
        seq![digit_byte(n)]
    } else {
        dec_bytes(n / 10).push(digit_byte(n % 10))
    }
}

/// The shortest decimal character string for `n` (no leading zeros).
pub open spec fn dec_chars(n: nat) -> Seq<char>
    decreases n,
{
    if n < 10 {
        seq![digit_char(n)]
    } else {
        dec_chars(n / 10).push(digit_char(n % 10))
    }
}

/// The decimal character string for a signed value: a minus sign before
/// the magnitude when the value is negative.
pub open spec fn sdec_chars(v: int) -> Seq<char> {
    if v >= 0 {
        dec_chars(v as nat)
    } else {
        seq!['-'] + dec_chars((-v) as nat)
    }
}

pub open spec fn is_dec_byte(b: u8) -> bool {
    48 <= b <= 57
}

pub open spec fn is_dec_bytes(s: Seq<u8>) -> bool {
    forall|i: int| 0 <= i < s.len() ==> is_dec_byte(#[trigger] s[i])
}

/// The value of a decimal byte string (leading zeros allowed).
pub open spec fn dec_val(s: Seq<u8>) -> nat
    decreases s.len(),
{
    if s.len() == 0 {
        0
    } else {
        dec_val(s.drop_last()) * 10 + (s.last() - 48) as nat
    }
}

/// What parsing a carrier value as an unsigned decimal number yields:
/// a value exactly when the bytes are one or more decimal digits and the
/// value fits in 64 bits.
pub open spec fn spec_parse_u64(s: Seq<u8>) -> Option<u64> {
    if s.len() > 0 && is_dec_bytes(s) && dec_val(s) <= u64::MAX {
        Some(dec_val(s) as u64)
    } else {
        None
    }
}

/// A sequence reversed.
pub open spec fn seq_rev<T>(s: Seq<T>) -> Seq<T> {
    Seq::new(s.len(), |i: int| s[s.len() - 1 - i])
}

/// Encodes `n` in decimal, as bytes.
pub fn u64_to_dec_bytes(n: u64) -> (r: Vec<u8>)
    ensures
        r@ == dec_bytes(n as nat),
{
    let mut rev: Vec<u8> = Vec::new();
    let mut m = n;
    if m == 0 {
        rev.push(48);
        proof {
            assert(seq_rev(rev@) =~= dec_bytes(n as nat));
        }
    } else {
        while m > 0
            invariant
                m > 0 ==> dec_bytes(n as nat) =~= dec_bytes(m as nat) + seq_rev(rev@),
                m == 0 ==> rev@.len() > 0 && dec_bytes(n as nat) =~= seq_rev(rev@),
            decreases m,
        {
            let d: u8 = (m % 10) as u8 + 48;
            let m2 = m / 10;
            proof {
                assert(digit_byte((m % 10) as nat) == d);
                assert(seq_rev(rev@.push(d)) =~= seq![d] + seq_rev(rev@));
                if m2 > 0 {
                    assert(dec_bytes(m as nat) == dec_bytes((m / 10) as nat).push(
                        digit_byte((m % 10) as nat),
                    ));
                    assert(dec_bytes(m as nat) =~= dec_bytes(m2 as nat) + (seq![d]
                        + Seq::<u8>::empty()));
                    assert(dec_bytes(n as nat) =~= dec_bytes(m2 as nat) + seq_rev(rev@.push(d)));
                } else {
                    assert(m < 10);
                    assert(dec_bytes(m as nat) =~= seq![d]);
                    assert(dec_bytes(n as nat) =~= seq_rev(rev@.push(d)));
                }
            }
            rev.push(d);
            m = m2;
        }
    }
    let mut out: Vec<u8> = Vec::new();
    let mut i = rev.len();
    while i > 0
        invariant
            i <= rev.len(),
            out@ =~= seq_rev(rev@).subrange(0, rev.len() - i),
        decreases i,
    {
        i = i - 1;
        let b = rev[i];
        proof {
            assert(seq_rev(rev@)[rev@.len() - 1 - i] == b);
            assert(out@.push(b) =~= seq_rev(rev@).subrange(0, rev.len() - i));
        }
        out.push(b);
    }
    proof {
        assert(out@ =~= seq_rev(rev@));
    }
    out
}

/// The character for one decimal digit.
fn digit_str(d: u8) -> (r: &'static str)
    requires
        d < 10,
    ensures
        r@ =~= seq![digit_char(d as nat)],
{
    proof {
        reveal_strlit("0");
        reveal_strlit("1");
        reveal_strlit("2");
        reveal_strlit("3");
        reveal_strlit("4");
        reveal_strlit("5");
        reveal_strlit("6");
        reveal_strlit("7");
        reveal_strlit("8");
        reveal_strlit("9");
    }
    match d {
        0 => "0",
        1 => "1",
        2 => "2",
        3 => "3",
        4 => "4",
        5 => "5",
        6 => "6",
        7 => "7",
        8 => "8",
        _ => "9",
    }
}

/// Renders `n` in decimal, as text.
pub fn u64_to_string(n: u64) -> (r: String)
    ensures
        r@ == dec_chars(n as nat),
{
    let bytes = u64_to_dec_bytes(n);
    proof {
        lemma_dec_bytes_are_digits(n as nat);
        lemma_dec_chars_of_bytes(n as nat);
    }
    let mut out = String::new();
    let mut i: usize = 0;
    while i < bytes.len()
        invariant
            i <= bytes@.len(),
            bytes@ == dec_bytes(n as nat),
            is_dec_bytes(bytes@),
            dec_chars(n as nat) == dec_bytes(n as nat).map_values(|b: u8| b as char),
            out@ =~= dec_chars(n as nat).subrange(0, i as int),
        decreases bytes@.len() - i,
    {
        let b = bytes[i];
        assert(is_dec_byte(b));
        let piece = digit_str(b - 48);
        proof {
            assert(digit_char((b - 48) as nat) == b as char);
            assert(out@ + piece@ =~= dec_chars(n as nat).subrange(0, i + 1));
        }
        out.append(piece);
        i += 1;
    }
    proof {
        assert(out@ =~= dec_chars(n as nat));
    }
    out
}

/// Renders a signed value in decimal, as text.
pub fn i64_to_string(v: i64) -> (r: String)
    ensures
        r@ == sdec_chars(v as int),
{
    if v >= 0 {
        u64_to_string(v as u64)
    } else {
        proof {
            reveal_strlit("-");
        }
        let mag: u64 = if v == i64::MIN {
            9223372036854775808u64
        } else {
            (-v) as u64
        };
        let digits = u64_to_string(mag);
        let r = String::from_str("-").concat(digits.as_str());
        proof {
            assert(r@ =~= sdec_chars(v as int));
        }
        r
    }
}

/// Renders a boolean as text.
pub fn bool_to_string(v: bool) -> (r: String)
    ensures
        r@ == spec_bool_chars(v),
{
    proof {
        reveal_strlit("true");
        reveal_strlit("false");
    }
    if v {
        String::from_str("true")
    } else {
        String::from_str("false")
    }
}

pub open spec fn spec_bool_chars(v: bool) -> Seq<char> {
    if v {
        "true"@
    } else {
        "false"@
    }
}

/// Parses an unsigned decimal number from carrier bytes.
pub fn parse_u64_dec(s: &[u8]) -> (r: Option<u64>)
    ensures
        r == spec_parse_u64(s@),
{
    let n = s.len();
    if n == 0 {
        return None;
    }
    let mut acc: u64 = 0;
    let mut i: usize = 0;
    while i < n
        invariant
            i <= n,
            n == s@.len(),
            is_dec_bytes(s@.subrange(0, i as int)),
            acc == dec_val(s@.subrange(0, i as int)),
        decreases n - i,
    {
        let b = s[i];
        if b < 48 || b > 57 {
            proof {
                assert(!is_dec_byte(s@[i as int]));
                assert(!is_dec_bytes(s@));
            }
            return None;
        }
        let d = (b - 48) as u64;
        let ghost pre = s@.subrange(0, i as int);
        let ghost cur = s@.subrange(0, i + 1);
        proof {
            assert(cur.drop_last() =~= pre);
            assert(cur.last() == s@[i as int]);
            assert(dec_val(cur) == acc * 10 + d);
        }
        if acc > (u64::MAX - d) / 10 {
            proof {
                assert(acc * 10 + d > u64::MAX) by (nonlinear_arith)
                    requires
                        acc > (u64::MAX - d) / 10,
                        d <= 9,
                        u64::MAX == 0xffff_ffff_ffff_ffff,
                ;
                lemma_dec_val_prefix(s@, i + 1);
            }
            return None;
        }
        proof {
            assert(acc * 10 + d <= u64::MAX) by (nonlinear_arith)
                requires
                    acc <= (u64::MAX - d) / 10,
                    d <= 9,
                    u64::MAX == 0xffff_ffff_ffff_ffff,
            ;
            assert(is_dec_bytes(cur)) by {
                assert(forall|k: int| 0 <= k < cur.len() ==> is_dec_byte(#[trigger] cur[k]));
            }
        }
        acc = acc * 10 + d;
        i += 1;
    }
    proof {
        assert(s@.subrange(0, n as int) =~= s@);
    }
    Some(acc)
}

/// The value of a decimal string only grows as bytes are appended.
proof fn lemma_dec_val_prefix(s: Seq<u8>, i: int)
    requires
        0 <= i <= s.len(),
    ensures
        dec_val(s) >= dec_val(s.subrange(0, i)),
    decreases s.len() - i,
{
    if i < s.len() {
        lemma_dec_val_prefix(s, i + 1);
        let cur = s.subrange(0, i + 1);
        assert(cur.drop_last() =~= s.subrange(0, i));
        assert(dec_val(cur) == dec_val(s.subrange(0, i)) * 10 + (cur.last() - 48) as nat);
        assert(dec_val(s.subrange(0, i)) * 10 >= dec_val(s.subrange(0, i))) by (nonlinear_arith);
    } else {
        assert(s.subrange(0, i) =~= s);
    }
}

/// A decimal encoding is one or more digit bytes.
pub proof fn lemma_dec_bytes_are_digits(n: nat)
    ensures
        dec_bytes(n).len() > 0,
        is_dec_bytes(dec_bytes(n)),
    decreases n,
{
    if n < 10 {
        assert(is_dec_byte(digit_byte(n)));
    } else {
        lemma_dec_bytes_are_digits(n / 10);
        assert(is_dec_byte(digit_byte(n % 10)));
        assert(forall|i: int|
            0 <= i < dec_bytes(n).len() ==> is_dec_byte(#[trigger] dec_bytes(n)[i]));
    }
}

/// The character encoding is the byte encoding read as characters.
proof fn lemma_dec_chars_of_bytes(n: nat)
    ensures
        dec_chars(n) == dec_bytes(n).map_values(|b: u8| b as char),
    decreases n,
{
    if n < 10 {
        assert(dec_chars(n) =~= dec_bytes(n).map_values(|b: u8| b as char));
    } else {
        lemma_dec_chars_of_bytes(n / 10);
        assert(dec_chars(n) =~= dec_bytes(n).map_values(|b: u8| b as char));
    }
}

/// Parsing inverts encoding: the decimal encoding of `n` reads back as `n`.
pub proof fn lemma_dec_val_of_dec_bytes(n: nat)
    ensures
        dec_val(dec_bytes(n)) == n,
    decreases n,
{
    if n < 10 {
        let s = dec_bytes(n);
        assert(s.drop_last() =~= Seq::<u8>::empty());
        assert(dec_val(s) == dec_val(s.drop_last()) * 10 + (s.last() - 48) as nat);
    } else {
        lemma_dec_val_of_dec_bytes(n / 10);
        let s = dec_bytes(n);
        assert(s.drop_last() =~= dec_bytes(n / 10));
        assert(dec_val(s) == (n / 10) * 10 + (n % 10));
        lemma_fundamental_div_mod(n as int, 10);
    }
}

/// Round trip: a 64-bit value survives decimal encoding and parsing.
pub proof fn lemma_dec_roundtrip(n: u64)
    ensures
        spec_parse_u64(dec_bytes(n as nat)) == Some(n),
{
    lemma_dec_bytes_are_digits(n as nat);
    lemma_dec_val_of_dec_bytes(n as nat);
}

/// A remote parent context extracted from a carrier.
#[derive(Clone, Copy, PartialEq, Eq, Structural, Debug)]
pub struct SpanContext {
    /// The trace the remote caller belongs to.
    pub trace_id: u64,
    /// The remote caller's own span, or zero when the carrier named none.
    pub parent_id: u64,
}

/// What extraction yields from the two looked-up carrier values: a context
/// exactly when the trace id value is present and parses; a missing or
/// malformed parent id degrades to zero rather than rejecting the context.
pub open spec fn spec_context_of(tv: Option<Seq<u8>>, pv: Option<Seq<u8>>) -> Option<SpanContext> {
    match tv {
        Option::Some(t) => match spec_parse_u64(t) {
            Option::Some(tid) => Option::Some(
                SpanContext {
                    trace_id: tid,
                    parent_id: match pv {
                        Option::Some(p) => match spec_parse_u64(p) {
                            Option::Some(pid) => pid,
                            Option::None => 0,
                        },
                        Option::None => 0,
                    },
                },
            ),
            Option::None => Option::None,
        },
        Option::None => Option::None,
    }
}

/// The bytes of an optional looked-up carrier value.
pub open spec fn opt_bytes_view(o: Option<Vec<u8>>) -> Option<Seq<u8>> {
    match o {
        Option::Some(v) => Option::Some(v@),
        Option::None => Option::None,
    }
}

/// Builds the remote context from the two looked-up carrier values.
pub fn context_from_values(tv: Option<&Vec<u8>>, pv: Option<&Vec<u8>>) -> (r: Option<SpanContext>)
    ensures
        r == spec_context_of(
            match tv {
                Option::Some(t) => Option::Some(t@),
                Option::None => Option::None,
            },
            match pv {
                Option::Some(p) => Option::Some(p@),
                Option::None => Option::None,
            },
        ),
{
    match tv {
        Some(t) => match parse_u64_dec(t.as_slice()) {
            Some(tid) => {
                let pid = match pv {
                    Some(p) => match parse_u64_dec(p.as_slice()) {
                        Some(pid) => pid,
                        None => 0,
                    },
                    None => 0,
                };
                Some(SpanContext { trace_id: tid, parent_id: pid })
            },
            None => None,
        },
        None => None,
    }
}

/// The bytes of an ASCII string, one byte per character.
pub open spec fn ascii_bytes(cs: Seq<char>) -> Seq<u8> {
    Seq::new(cs.len(), |i: int| cs[i] as u8)
}

/// The carrier key under which the trace id travels.
pub open spec fn trace_id_key() -> Seq<u8> {
    ascii_bytes("x-datadog-trace-id"@)
}

/// The carrier key under which the parent span id travels.
pub open spec fn parent_id_key() -> Seq<u8> {
    ascii_bytes("x-datadog-parent-id"@)
}

/// The carrier key bytes for the trace id.
pub fn trace_id_key_bytes() -> (r: Vec<u8>)
    ensures
        r@ == trace_id_key(),
{
    proof {
        reveal_strlit("x-datadog-trace-id");
    }
    ascii_key_bytes("x-datadog-trace-id")
}

/// The carrier key bytes for the parent span id.
pub fn parent_id_key_bytes() -> (r: Vec<u8>)
    ensures
        r@ == parent_id_key(),
{
    proof {
        reveal_strlit("x-datadog-parent-id");
    }
    ascii_key_bytes("x-datadog-parent-id")
}

/// The byte string of an ASCII carrier key.
fn ascii_key_bytes(s: &str) -> (r: Vec<u8>)
    requires
        s.is_ascii(),
    ensures
        r@ == ascii_bytes(s@),
{
    proof {
        vstd::string::is_ascii_spec_bytes(s);
        assert(s.spec_bytes() =~= ascii_bytes(s@));
    }
    s.as_bytes_vec()
}

} // verus!
