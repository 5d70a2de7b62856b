//! Small verified string helpers: character-level comparison, ASCII
//! upper-casing, and the control-character test that decides between the
//! two string encodings.

use vstd::prelude::*;
use vstd::string::StrSliceExecFns;

verus! {

/// Relies on `String::push`: appends exactly one character at the end.
#[verifier::external_body]
pub(crate) fn push_char(s: &mut String, c: char)
    ensures
        final(s)@ == old(s)@.push(c),
{
    s.push(c);
}

/// Character-for-character string equality.
pub fn str_eq(a: &str, b: &str) -> (r: bool)
    ensures
        r == (a@ == b@),
{
    let na: usize = a.unicode_len();
    let nb: usize = b.unicode_len();
    if na != nb {
        return false;
    }
    let mut i: usize = 0;
    while i < na
        invariant
            na == a@.len(),
            na == b@.len(),
            0 <= i <= na,
            forall|k: int| 0 <= k < i ==> a@[k] == b@[k],
        decreases na - i,
    {
        if a.get_char(i) != b.get_char(i) {
            return false;
        }
        i += 1;
    }
    proof {
        assert(a@ =~= b@);
    }
    true
}

/// ASCII upper-casing of one character; all others are untouched.
pub open spec fn upper_char(c: char) -> char {
    if 'a' <= c && c <= 'z' {
        (((c as u8) - 32) as char)
    } else {
        c
    }
}

/// ASCII upper-casing of a character sequence.
pub open spec fn spec_upper(s: Seq<char>) -> Seq<char> {
    Seq::new(s.len(), |i: int| upper_char(s[i]))
}

/// ASCII upper-casing, as the command table expects names and keywords.
pub fn to_upper(s: &str) -> (out: String)
    ensures
        out@ == spec_upper(s@),
{
    let n: usize = s.unicode_len();
    let mut out = String::new();
    let mut i: usize = 0;
    while i < n
        invariant
            n == s@.len(),
            0 <= i <= n,
            out@.len() == i,
            forall|k: int| 0 <= k < i ==> out@[k] == upper_char(s@[k]),
        decreases n - i,
    {
        let c = s.get_char(i);
        let u = if 'a' <= c && c <= 'z' {
            (((c as u8) - 32) as char)
        } else {
            c
        };
        push_char(&mut out, u);
        i += 1;
    }
    proof {
        assert(out@ =~= spec_upper(s@));
    }
    out
}

/// Whether `c` is a control character (the C0 range, delete, or the C1
/// range), mirroring the Unicode `Cc` category.
pub open spec fn is_ctl_char(c: char) -> bool {
    (c as u32) < 32 || (127 <= (c as u32) && (c as u32) <= 159)
}

/// Whether the text holds a control character or either line-break
/// character, in which case only the length-prefixed encoding is safe.
pub open spec fn has_special(s: Seq<char>) -> bool {
    exists|i: int| 0 <= i < s.len() && (is_ctl_char(s[i]) || s[i] == '\r' || s[i] == '\n')
}

/// The executable test behind [`has_special`].
pub fn contains_special(s: &str) -> (r: bool)
    ensures
        r == has_special(s@),
{
    let n: usize = s.unicode_len();
    let mut i: usize = 0;
    while i < n
        invariant
            n == s@.len(),
            0 <= i <= n,
            forall|k: int| 0 <= k < i ==> !(is_ctl_char(s@[k]) || s@[k] == '\r' || s@[k] == '\n'),
        decreases n - i,
    {
        let c = s.get_char(i);
        if (c as u32) < 32 || (127 <= (c as u32) && (c as u32) <= 159) || c == '\r' || c == '\n' {
            return true;
        }
        i += 1;
    }
    false
}

} // verus!
