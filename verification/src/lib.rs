//! A bridge between a framework-level instrumentation system and a native
//! tracing engine.
//!
//! The crate models the engine side of the bridge explicitly: an engine
//! handle ([`Tracer`]) builds spans ([`Span`]); spans carry tags, error
//! state and a parent link; trace context crosses process boundaries
//! through the propagation codec ([`codec`]); and the synchroniser layers
//! ([`tracing_datadog_sdk`], [`tracing_dd`]) keep the native span tree
//! mirror-consistent with the instrumentation framework's span tree.

pub mod codec;
pub mod config;
pub mod engine;
pub mod registry;
pub mod integrations;
pub mod span;
pub mod tracing_datadog_sdk;
pub mod tracing_dd;

pub use config::Config;
pub use config::ConfigProperty;
pub use engine::Tracer;
pub use span::Span;

use vstd::prelude::*;
use vstd::string::*;

verus! {

/// A toolchain description such as `rustc 1.71.1 (eb26296b5 2023-08-03)`
/// with the leading `rustc ` dropped, when present.
pub open spec fn spec_strip_toolchain(raw: Seq<char>) -> Seq<char> {
    if raw.len() >= 6 && raw.subrange(0, 6) == "rustc "@ {
        raw.subrange(6, raw.len() as int)
    } else {
        raw
    }
}

/// Everything before the first space, or all of `s` when it has none.
pub open spec fn spec_cut_at_space(s: Seq<char>) -> Seq<char> {
    if exists|i: int| 0 <= i < s.len() && s[i] == ' ' {
        let cut = choose|i: int|
            0 <= i < s.len() && s[i] == ' ' && forall|j: int| 0 <= j < i ==> s[j] != ' ';
        s.subrange(0, cut)
    } else {
        s
    }
}

/// The bare version inside a toolchain description: the word after a
/// leading `rustc `, or the first word of the whole string.
pub open spec fn spec_rust_version(raw: Seq<char>) -> Seq<char> {
    spec_cut_at_space(spec_strip_toolchain(raw))
}

/// Extracts the bare version from a toolchain description string.
pub fn rust_version(raw: &str) -> (r: String)
    ensures
        r@ == spec_rust_version(raw@),
{
    proof {
        reveal_strlit("rustc ");
    }
    let n = raw.unicode_len();
    let has_pre = n >= 6 && is_char_prefix(raw, 'r', 'u', 's', 't', 'c', ' ');
    proof {
        if has_pre {
            assert(raw@.subrange(0, 6) =~= "rustc "@);
        } else if raw@.len() >= 6 && raw@.subrange(0, 6) == "rustc "@ {
            assert(forall|k: int| 0 <= k < 6 ==> raw@.subrange(0, 6)[k] == raw@[k]);
            assert(raw@[0] == 'r' && raw@[1] == 'u' && raw@[2] == 's' && raw@[3] == 't' && raw@[4]
                == 'c' && raw@[5] == ' ');
        }
    }
    let stripped = if has_pre {
        raw.substring_char(6, n)
    } else {
        raw
    };
    let m = stripped.unicode_len();
    let mut i: usize = 0;
    while i < m && stripped.get_char(i) != ' '
        invariant
            0 <= i <= m,
            m == stripped@.len(),
            forall|j: int| 0 <= j < i ==> stripped@[j] != ' ',
        decreases m - i,
    {
        i += 1;
    }
    let cut = stripped.substring_char(0, i);
    proof {
        let s = spec_strip_toolchain(raw@);
        assert(s == stripped@);
        if i < m {
            assert(0 <= i < s.len() && s[i as int] == ' ' && (forall|j: int|
                0 <= j < i ==> s[j] != ' '));
            let w = choose|k: int|
                0 <= k < s.len() && s[k] == ' ' && forall|j: int| 0 <= j < k ==> s[j] != ' ';
            assert(0 <= w < s.len() && s[w] == ' ' && (forall|j: int| 0 <= j < w ==> s[j] != ' '));
            if w < i {
                assert(s[w] != ' ');
            } else if w > i {
                assert(s[i as int] != ' ');
            }
            assert(w == i);
            assert(spec_cut_at_space(s) == s.subrange(0, i as int));
        } else {
            assert(forall|k: int| 0 <= k < s.len() ==> s[k] != ' ');
            assert(cut@ =~= s);
        }
        assert(cut@ == spec_rust_version(raw@));
    }
    String::from_str(cut)
}

/// True when the string starts with the six given characters.
fn is_char_prefix(s: &str, c0: char, c1: char, c2: char, c3: char, c4: char, c5: char) -> (r:
    bool)
    requires
        s@.len() >= 6,
    ensures
        r == (s@[0] == c0 && s@[1] == c1 && s@[2] == c2 && s@[3] == c3 && s@[4] == c4 && s@[5]
            == c5),
{
    s.get_char(0) == c0 && s.get_char(1) == c1 && s.get_char(2) == c2 && s.get_char(3) == c3
        && s.get_char(4) == c4 && s.get_char(5) == c5
}

} // verus!
