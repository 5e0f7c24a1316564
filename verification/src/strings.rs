//! Character-level helpers: substring search and the derivation of an
//! environment-variable name from a target triple.
use vstd::prelude::*;

verus! {

/// How one character of a target triple appears in the derived
/// environment-variable name: `-` becomes `_`, ASCII lowercase letters are
/// uppercased, everything else is kept.
pub open spec fn env_key_char(c: char) -> char {
    if c == '-' {
        '_'
    } else if 97 <= c as int && c as int <= 122 {
        ((c as int) - 32) as char
    } else {
        c
    }
}

/// The characters of a whole triple, transformed as `env_key_char` says.
pub open spec fn env_key_chars(t: Seq<char>) -> Seq<char> {
    Seq::new(t.len(), |i: int| env_key_char(t[i]))
}

/// The per-target runner-override variable name for a triple: the
/// transformed triple substituted into the fixed `CARGO_TARGET_*_RUNNER`
/// template.
pub open spec fn runner_key_of(t: Seq<char>) -> Seq<char> {
    "CARGO_TARGET_"@ + env_key_chars(t) + "_RUNNER"@
}

/// `needle` occurs in `hay` starting at position `i`.
pub open spec fn matches_at(hay: Seq<char>, needle: Seq<char>, i: int) -> bool {
    0 <= i && i + needle.len() <= hay.len() && hay.subrange(i, i + needle.len()) == needle
}

/// `needle` occurs somewhere in `hay` as a contiguous substring.
pub open spec fn has_substring(hay: Seq<char>, needle: Seq<char>) -> bool {
    exists|i: int| matches_at(hay, needle, i)
}

/// A triple selects emulation exactly when it contains the MSVC marker.
pub open spec fn is_msvc_triple(t: Seq<char>) -> bool {
    has_substring(t, "msvc"@)
}

fn map_env_key_char(c: char) -> (r: char)
    ensures
        r == env_key_char(c),
{
    let u: u32 = c as u32;
    if c == '-' {
        '_'
    } else if 97 <= u && u <= 122 {
        (((u - 32) as u8) as char)
    } else {
        c
    }
}

/// Relies on `String::push`: appends exactly one character at the end.
#[verifier::external_body]
fn push_char(s: &mut String, c: char)
    ensures
        final(s)@ == old(s)@.push(c),
{
    s.push(c)
}

/// Build the runner-override variable name for `target`.
pub fn runner_env_key(target: &str) -> (r: String)
    ensures
        r@ == runner_key_of(target@),
{
    let mut out = String::from_str("CARGO_TARGET_");
    let n = target.unicode_len();
    let mut i: usize = 0;
    while i < n
        invariant
            n == target@.len(),
            i <= n,
            out@ == "CARGO_TARGET_"@ + env_key_chars(target@.take(i as int)),
        decreases n - i,
    {
        let c = target.get_char(i);
        push_char(&mut out, map_env_key_char(c));
        i = i + 1;
        proof {
            assert(env_key_chars(target@.take(i as int)) =~= env_key_chars(
                target@.take(i - 1),
            ).push(env_key_char(target@[i - 1])));
        }
    }
    proof {
        assert(target@.take(n as int) =~= target@);
    }
    out.append("_RUNNER");
    out
}

/// Decide whether `needle` occurs in `hay` as a contiguous substring.
pub fn str_has_substring(hay: &str, needle: &str) -> (r: bool)
    ensures
        r == has_substring(hay@, needle@),
{
    let n = hay.unicode_len();
    let m = needle.unicode_len();
    if m == 0 {
        proof {
            assert(hay@.subrange(0, 0) =~= needle@);
            assert(matches_at(hay@, needle@, 0));
        }
        return true;
    }
    if m > n {
        proof {
            assert(forall|i: int| !matches_at(hay@, needle@, i));
        }
        return false;
    }
    let mut i: usize = 0;
    while i <= n - m
        invariant
            n == hay@.len(),
            m == needle@.len(),
            1 <= m <= n,
            i <= n - m + 1,
            forall|k: int| 0 <= k < i ==> !matches_at(hay@, needle@, k),
        decreases n - m + 1 - i,
    {
        let mut j: usize = 0;
        let mut mismatch = false;
        while j < m && !mismatch
            invariant
                n == hay@.len(),
                m == needle@.len(),
                i + m <= n,
                j <= m,
                !mismatch ==> forall|k: int| 0 <= k < j ==> hay@[i + k] == needle@[k],
                mismatch ==> !matches_at(hay@, needle@, i as int),
            decreases m - j + (if mismatch { 0int } else { 1int }),
        {
            if hay.get_char(i + j) != needle.get_char(j) {
                mismatch = true;
                proof {
                    assert(hay@.subrange(i as int, i + m)[j as int] != needle@[j as int]);
                }
            } else {
                j = j + 1;
            }
        }
        if !mismatch {
            proof {
                assert(forall|k: int| 0 <= k < m ==> hay@.subrange(i as int, i + m)[k]
                    == needle@[k]);
                assert(hay@.subrange(i as int, i + m) =~= needle@);
                assert(matches_at(hay@, needle@, i as int));
            }
            return true;
        }
        i = i + 1;
    }
    proof {
        assert(forall|k: int| i <= k ==> !matches_at(hay@, needle@, k));
        assert(forall|k: int| !matches_at(hay@, needle@, k));
    }
    false
}

} // verus!
