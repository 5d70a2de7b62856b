//! The wire-format codec: a recursive parser from protocol text to a
//! [`RedisType`] tree, and a serializer back to text.
//!
//! [`spec_ser`] and [`spec_parse`] state both directions over the ghost
//! model; the executable functions are proved equal to them, and
//! [`lemma_roundtrip`] shows that parsing an encoding returns the encoded
//! value.

use vstd::prelude::*;
use vstd::string::StrSliceExecFns;
use vstd::string::StringExecFns;
use core::str::FromStr;
use crate::decimal::is_digit;
use crate::decimal::fmt_i64;
use crate::decimal::fmt_usize;
use crate::decimal::lemma_dec_i64_line_clean;
use crate::decimal::lemma_dec_nat_digits;
use crate::decimal::lemma_parse_dec_i64;
use crate::decimal::parse_i64;
use crate::decimal::spec_dec_i64;
use crate::decimal::spec_dec_nat;
use crate::decimal::spec_parse_i64;
use crate::strutil::contains_special;
use crate::strutil::has_special;
use crate::strutil::is_ctl_char;
use crate::strutil::push_char;
use crate::wire::RedisType;
use crate::wire::RedisTypeParseError;
use crate::wire::WireVal;
use crate::wire::lemma_rts_view;
use crate::wire::lemma_rts_view_push;
use crate::wire::lemma_wfs_vals;
use crate::wire::line_safe;
use crate::wire::rt_view;
use crate::wire::rts_view;
use crate::wire::wf_val;

verus! {

/// The two-character line terminator.
pub open spec fn crlf() -> Seq<char> {
    seq!['\r', '\n']
}

/// The text that `v` encodes to. With `bulk` set, every non-null string
/// takes the length-prefixed encoding; otherwise text free of control
/// characters and line breaks takes the one-line encoding.
pub open spec fn spec_ser(v: WireVal, bulk: bool) -> Seq<char>
    decreases v, 1int, 0int,
{
    match v {
        WireVal::NullString => seq!['$', '-', '1', '\r', '\n'],
        WireVal::NullArray => seq!['*', '-', '1', '\r', '\n'],
        WireVal::Text(s) => if s.len() == 0 {
            seq!['$', '0', '\r', '\n', '\r', '\n']
        } else if bulk || has_special(s) {
            seq!['$'] + spec_dec_nat(s.len() as int) + crlf() + s + crlf()
        } else {
            seq!['+'] + s + crlf()
        },
        WireVal::ErrorText(s) => seq!['-'] + s + crlf(),
        WireVal::Number(n) => seq![':'] + spec_dec_i64(n) + crlf(),
        WireVal::List(items) => seq!['*'] + spec_dec_nat(items.len() as int) + crlf()
            + spec_ser_items(items, 0, bulk),
    }
}

/// The concatenated encodings of `items[i..]`.
pub open spec fn spec_ser_items(items: Seq<WireVal>, i: int, bulk: bool) -> Seq<char>
    decreases items, 0int, items.len() - i,
{
    if i < 0 || i >= items.len() {
        Seq::empty()
    } else {
        spec_ser(items[i], bulk) + spec_ser_items(items, i + 1, bulk)
    }
}

/// The position of the first line terminator at or after `i`, or `-1`.
pub open spec fn spec_find_crlf(s: Seq<char>, i: int) -> int
    decreases s.len() - i,
{
    if i < 0 || i + 2 > s.len() {
        -1
    } else if s[i] == '\r' && s[i + 1] == '\n' {
        i
    } else {
        spec_find_crlf(s, i + 1)
    }
}

/// What a successful or failed find says about the text.
pub proof fn lemma_find_crlf_props(s: Seq<char>, i: int)
    requires
        0 <= i,
    ensures
        spec_find_crlf(s, i) == -1 ==> (forall|k: int|
            i <= k && k + 2 <= s.len() ==> !(#[trigger] s[k] == '\r' && s[k + 1] == '\n')),
        spec_find_crlf(s, i) != -1 ==> {
            let j = spec_find_crlf(s, i);
            &&& i <= j
            &&& j + 2 <= s.len()
            &&& s[j] == '\r'
            &&& s[j + 1] == '\n'
            &&& forall|k: int| i <= k < j ==> !(#[trigger] s[k] == '\r' && s[k + 1] == '\n')
        },
    decreases s.len() - i,
{
    if i + 2 > s.len() {
    } else if s[i] == '\r' && s[i + 1] == '\n' {
    } else {
        lemma_find_crlf_props(s, i + 1);
    }
}

/// A terminator at `j` with none before it is the first one.
pub proof fn lemma_find_crlf_exact(s: Seq<char>, i: int, j: int)
    requires
        0 <= i <= j,
        j + 2 <= s.len(),
        s[j] == '\r',
        s[j + 1] == '\n',
        forall|k: int| i <= k < j ==> !(#[trigger] s[k] == '\r' && s[k + 1] == '\n'),
    ensures
        spec_find_crlf(s, i) == j,
    decreases j - i,
{
    if i < j {
        lemma_find_crlf_exact(s, i + 1, j);
    }
}

pub open spec fn is_prefix_char(c: char) -> bool {
    c == '+' || c == '-' || c == ':' || c == '*' || c == '$'
}

/// One value read off the front of `s`, with the text that remains, or the
/// first error: an empty input misses its prefix, input without a line
/// terminator misses its suffix, an unknown first character is an invalid
/// prefix, a malformed length field is an invalid length, a malformed
/// integer payload or a bulk payload not closed by a terminator is an
/// invalid suffix.
pub open spec fn spec_parse_one(s: Seq<char>) -> Result<
    (WireVal, Seq<char>),
    RedisTypeParseError,
>
    decreases s.len(), 0int,
{
    if s.len() == 0 {
        Err(RedisTypeParseError::MissingPrefix)
    } else {
        let j = spec_find_crlf(s, 0);
        if j < 0 || j + 2 > s.len() {
            Err(RedisTypeParseError::InvalidSuffix)
        } else if !is_prefix_char(s[0]) {
            Err(RedisTypeParseError::InvalidPrefix)
        } else {
            let payload = s.subrange(1, j);
            let rest = s.subrange(j + 2, s.len() as int);
            if s[0] == '+' {
                Ok((WireVal::Text(payload), rest))
            } else if s[0] == '-' {
                Ok((WireVal::ErrorText(payload), rest))
            } else if s[0] == ':' {
                match spec_parse_i64(payload) {
                    Some(n) => Ok((WireVal::Number(n), rest)),
                    None => Err(RedisTypeParseError::InvalidSuffix),
                }
            } else if s[0] == '*' {
                match spec_parse_i64(payload) {
                    None => Err(RedisTypeParseError::InvalidArrayLength),
                    Some(len) => if len < 0 {
                        Ok((WireVal::NullArray, rest))
                    } else {
                        match spec_parse_items(rest, len) {
                            Ok((vs, r2)) => Ok((WireVal::List(vs), r2)),
                            Err(e) => Err(e),
                        }
                    },
                }
            } else {
                match spec_parse_i64(payload) {
                    None => Err(RedisTypeParseError::InvalidArrayLength),
                    Some(len) => if len < 0 {
                        Ok((WireVal::NullString, rest))
                    } else if rest.len() >= len + 2 && rest[len] == '\r' && rest[len + 1] == '\n' {
                        Ok(
                            (
                                WireVal::Text(rest.subrange(0, len)),
                                rest.subrange(len + 2, rest.len() as int),
                            ),
                        )
                    } else {
                        Err(RedisTypeParseError::InvalidSuffix)
                    },
                }
            }
        }
    }
}

/// `n` values read in sequence off the front of `s`.
pub open spec fn spec_parse_items(s: Seq<char>, n: int) -> Result<
    (Seq<WireVal>, Seq<char>),
    RedisTypeParseError,
>
    decreases s.len(), 1int,
{
    if n <= 0 {
        Ok((Seq::empty(), s))
    } else {
        match spec_parse_one(s) {
            Err(e) => Err(e),
            Ok((v, r)) => if r.len() < s.len() {
                match spec_parse_items(r, n - 1) {
                    Err(e) => Err(e),
                    Ok((vs, r2)) => Ok((seq![v] + vs, r2)),
                }
            } else {
                // A successful parse always consumes text; this branch is
                // never reached.
                Err(RedisTypeParseError::InvalidArrayLength)
            },
        }
    }
}

/// One complete value covering the whole input: leftover text is an error.
pub open spec fn spec_parse(s: Seq<char>) -> Result<WireVal, RedisTypeParseError> {
    match spec_parse_one(s) {
        Ok((v, rest)) => if rest.len() == 0 {
            Ok(v)
        } else {
            Err(RedisTypeParseError::LeftOverData)
        },
        Err(e) => Err(e),
    }
}

/// An encoding is never empty.
pub proof fn lemma_ser_len(v: WireVal, bulk: bool)
    ensures
        spec_ser(v, bulk).len() >= 3,
{
    match v {
        WireVal::Text(s) => {
            if s.len() == 0 {
            } else if bulk || has_special(s) {
                lemma_dec_nat_digits(s.len() as int);
            }
        },
        WireVal::Number(n) => {
            if n < 0 {
                lemma_dec_nat_digits(-n);
            } else {
                lemma_dec_nat_digits(n);
            }
        },
        WireVal::List(items) => {
            lemma_dec_nat_digits(items.len() as int);
        },
        _ => {},
    }
}

/// Finds the first line terminator, as [`spec_find_crlf`] states it.
fn find_crlf(s: &str) -> (r: Option<usize>)
    ensures
        match r {
            Some(j) => spec_find_crlf(s@, 0) == j,
            None => spec_find_crlf(s@, 0) == -1,
        },
{
    let n: usize = s.unicode_len();
    let mut j: usize = 0;
    while j < n && j + 1 < n
        invariant
            n == s@.len(),
            0 <= j <= n,
            spec_find_crlf(s@, 0) == spec_find_crlf(s@, j as int),
        decreases n - j,
    {
        if s.get_char(j) == '\r' && s.get_char(j + 1) == '\n' {
            return Some(j);
        }
        j += 1;
    }
    None
}

/// Reads one value off the front of `s`, returning it with the text that
/// remains, exactly as [`spec_parse_one`] states. A successful parse always
/// consumes at least one character.
pub fn parse_one<'a>(s: &'a str) -> (r: Result<(RedisType, &'a str), RedisTypeParseError>)
    ensures
        match r {
            Ok(p) => spec_parse_one(s@) == Ok::<(WireVal, Seq<char>), RedisTypeParseError>(
                (rt_view(p.0), p.1@),
            ) && p.1@.len() < s@.len(),
            Err(e) => spec_parse_one(s@) == Err::<(WireVal, Seq<char>), RedisTypeParseError>(e),
        },
    decreases s@.len(),
{
    let n: usize = s.unicode_len();
    if n == 0 {
        return Err(RedisTypeParseError::MissingPrefix);
    }
    let j: usize = match find_crlf(s) {
        Some(j) => j,
        None => {
            return Err(RedisTypeParseError::InvalidSuffix);
        },
    };
    proof {
        lemma_find_crlf_props(s@, 0);
    }
    let c0 = s.get_char(0);
    if !(c0 == '+' || c0 == '-' || c0 == ':' || c0 == '*' || c0 == '$') {
        return Err(RedisTypeParseError::InvalidPrefix);
    }
    proof {
        assert(s@[0] != '\r');
        assert(j >= 1);
    }
    let payload: &str = s.substring_char(1, j);
    let rest: &str = s.substring_char(j + 2, n);
    if c0 == '+' {
        Ok((RedisType::String { value: payload.to_owned() }, rest))
    } else if c0 == '-' {
        Ok((RedisType::Error { value: payload.to_owned() }, rest))
    } else if c0 == ':' {
        match parse_i64(payload) {
            Some(v) => Ok((RedisType::Integer { value: v }, rest)),
            None => Err(RedisTypeParseError::InvalidSuffix),
        }
    } else if c0 == '*' {
        let len: i64 = match parse_i64(payload) {
            Some(v) => v,
            None => {
                return Err(RedisTypeParseError::InvalidArrayLength);
            },
        };
        if len < 0 {
            return Ok((RedisType::NullArray, rest));
        }
        let ghost rest0 = rest@;
        let mut items: Vec<RedisType> = Vec::new();
        let mut cur: &str = rest;
        let mut k: i64 = 0;
        proof {
            let r = spec_parse_items(rest0, len as int);
            if r is Ok {
                assert(Seq::<WireVal>::empty() + (r->Ok_0).0 =~= (r->Ok_0).0);
            }
            assert(rts_view(Seq::<RedisType>::empty()) =~= Seq::<WireVal>::empty());
        }
        #[verifier::loop_isolation(false)]
        while k < len
            invariant
                0 <= k <= len,
                cur@.len() <= rest0.len(),
                spec_parse_items(rest0, len as int) == (match spec_parse_items(
                    cur@,
                    (len - k) as int,
                ) {
                    Ok(p) => Ok::<(Seq<WireVal>, Seq<char>), RedisTypeParseError>(
                        (rts_view(items@) + p.0, p.1),
                    ),
                    Err(e) => Err::<(Seq<WireVal>, Seq<char>), RedisTypeParseError>(e),
                }),
            decreases len - k,
        {
            let ghost items0 = items@;
            let ghost cur0 = cur@;
            match parse_one(cur) {
                Err(e) => {
                    return Err(e);
                },
                Ok((v, nxt)) => {
                    proof {
                        let tail2 = spec_parse_items(nxt@, (len - k - 1) as int);
                        lemma_rts_view_push(items0, v);
                        if tail2 is Ok {
                            let p = tail2->Ok_0;
                            assert(rts_view(items0.push(v)) + p.0 =~= rts_view(items0) + (seq![
                                rt_view(v),
                            ] + p.0));
                        }
                    }
                    items.push(v);
                    cur = nxt;
                },
            }
            k += 1;
        }
        proof {
            assert(spec_parse_items(cur@, 0) == Ok::<(Seq<WireVal>, Seq<char>),
                RedisTypeParseError>((Seq::<WireVal>::empty(), cur@)));
            assert(rts_view(items@) + Seq::<WireVal>::empty() =~= rts_view(items@));
        }
        Ok((RedisType::Array { value: items }, cur))
    } else {
        let len: i64 = match parse_i64(payload) {
            Some(v) => v,
            None => {
                return Err(RedisTypeParseError::InvalidArrayLength);
            },
        };
        if len < 0 {
            return Ok((RedisType::NullString, rest));
        }
        let rn: usize = rest.unicode_len();
        if (rn as u64) < (len as u64) + 2 {
            return Err(RedisTypeParseError::InvalidSuffix);
        }
        let lu: usize = len as usize;
        if !(rest.get_char(lu) == '\r' && rest.get_char(lu + 1) == '\n') {
            return Err(RedisTypeParseError::InvalidSuffix);
        }
        let value: &str = rest.substring_char(0, lu);
        let rest2: &str = rest.substring_char(lu + 2, rn);
        Ok((RedisType::String { value: value.to_owned() }, rest2))
    }
}

/// Appends the line terminator.
fn push_crlf(out: &mut String)
    ensures
        final(out)@ == old(out)@ + crlf(),
{
    push_char(out, '\r');
    push_char(out, '\n');
    proof {
        assert(out@ =~= old(out)@ + crlf());
    }
}

impl RedisType {
    /// Writes the wire text of this value, as [`spec_ser`] states it. With
    /// `force_bulk` every non-null string takes the length-prefixed
    /// encoding, whatever it holds.
    pub fn serialize(&self, force_bulk: bool) -> (out: String)
        ensures
            out@ == spec_ser(rt_view(*self), force_bulk),
        decreases *self,
    {
        match self {
            RedisType::NullString => {
                let out = "$-1\r\n".to_owned();
                proof {
                    reveal_strlit("$-1\r\n");
                    assert(out@ =~= spec_ser(rt_view(*self), force_bulk));
                }
                out
            },
            RedisType::NullArray => {
                let out = "*-1\r\n".to_owned();
                proof {
                    reveal_strlit("*-1\r\n");
                    assert(out@ =~= spec_ser(rt_view(*self), force_bulk));
                }
                out
            },
            RedisType::String { value } => {
                let n: usize = value.as_str().unicode_len();
                if n == 0 {
                    let out = "$0\r\n\r\n".to_owned();
                    proof {
                        reveal_strlit("$0\r\n\r\n");
                        assert(out@ =~= spec_ser(rt_view(*self), force_bulk));
                    }
                    out
                } else if force_bulk || contains_special(value.as_str()) {
                    let mut out = String::new();
                    push_char(&mut out, '$');
                    let lenstr = fmt_usize(n);
                    out.append(lenstr.as_str());
                    push_crlf(&mut out);
                    out.append(value.as_str());
                    push_crlf(&mut out);
                    proof {
                        assert(out@ =~= seq!['$'] + spec_dec_nat(n as int) + crlf() + value@
                            + crlf());
                    }
                    out
                } else {
                    let mut out = String::new();
                    push_char(&mut out, '+');
                    out.append(value.as_str());
                    push_crlf(&mut out);
                    proof {
                        assert(out@ =~= seq!['+'] + value@ + crlf());
                    }
                    out
                }
            },
            RedisType::Error { value } => {
                let mut out = String::new();
                push_char(&mut out, '-');
                out.append(value.as_str());
                push_crlf(&mut out);
                proof {
                    assert(out@ =~= seq!['-'] + value@ + crlf());
                }
                out
            },
            RedisType::Integer { value } => {
                let mut out = String::new();
                push_char(&mut out, ':');
                let digits = fmt_i64(*value);
                out.append(digits.as_str());
                push_crlf(&mut out);
                proof {
                    assert(out@ =~= seq![':'] + spec_dec_i64(*value as int) + crlf());
                }
                out
            },
            RedisType::Array { value } => {
                let len: usize = value.len();
                let ghost items = rts_view(value@);
                proof {
                    lemma_rts_view(value@);
                }
                let mut out = String::new();
                push_char(&mut out, '*');
                let lenstr = fmt_usize(len);
                out.append(lenstr.as_str());
                push_crlf(&mut out);
                let ghost header = seq!['*'] + spec_dec_nat(len as int) + crlf();
                proof {
                    assert(out@ =~= header);
                }
                let mut j: usize = 0;
                #[verifier::loop_isolation(false)]
                while j < len
                    invariant
                        len == value@.len(),
                        items == rts_view(value@),
                        items.len() == len,
                        forall|k: int| 0 <= k < len ==> items[k] == rt_view(value@[k]),
                        0 <= j <= len,
                        out@ + spec_ser_items(items, j as int, force_bulk) == header
                            + spec_ser_items(items, 0, force_bulk),
                    decreases len - j,
                {
                    let ghost out0 = out@;
                    proof {
                        assert(decreases_to!(*self => *value));
                        assert(decreases_to!(*self => value@[j as int]));
                    }
                    let piece = value[j].serialize(force_bulk);
                    out.append(piece.as_str());
                    proof {
                        assert(spec_ser_items(items, j as int, force_bulk) == spec_ser(
                            items[j as int],
                            force_bulk,
                        ) + spec_ser_items(items, j + 1, force_bulk));
                        assert((out0 + spec_ser(items[j as int], force_bulk)) + spec_ser_items(
                            items,
                            j + 1,
                            force_bulk,
                        ) =~= out0 + (spec_ser(items[j as int], force_bulk) + spec_ser_items(
                            items,
                            j + 1,
                            force_bulk,
                        )));
                    }
                    j += 1;
                }
                proof {
                    assert(out@ + spec_ser_items(items, len as int, force_bulk) =~= out@);
                    assert(rt_view(*self) == WireVal::List(items));
                }
                out
            },
        }
    }
}

/// A terminator at `j` is the first when no earlier character is a
/// carriage return at all.
proof fn lemma_find_crlf_after_clean_prefix(w: Seq<char>, j: int)
    requires
        0 <= j,
        j + 2 <= w.len(),
        forall|k: int| 0 <= k < j ==> #[trigger] w[k] != '\r',
        w[j] == '\r',
        w[j + 1] == '\n',
    ensures
        spec_find_crlf(w, 0) == j,
{
    lemma_find_crlf_exact(w, 0, j);
}

/// The null encodings parse back to their nulls.
proof fn lemma_parse_ser_null(v: WireVal, bulk: bool, suffix: Seq<char>)
    requires
        v is NullString || v is NullArray,
    ensures
        spec_parse_one(spec_ser(v, bulk) + suffix) == Ok::<
            (WireVal, Seq<char>),
            RedisTypeParseError,
        >((v, suffix)),
{
    let w = spec_ser(v, bulk) + suffix;
    lemma_find_crlf_after_clean_prefix(w, 3);
    assert(w.subrange(1, 3) =~= spec_dec_i64(-1));
    lemma_parse_dec_i64(-1);
    assert(w.subrange(5, w.len() as int) =~= suffix);
}

/// An integer encoding parses back to its integer.
proof fn lemma_parse_ser_number(n: int, bulk: bool, suffix: Seq<char>)
    requires
        i64::MIN <= n <= i64::MAX,
    ensures
        spec_parse_one(spec_ser(WireVal::Number(n), bulk) + suffix) == Ok::<
            (WireVal, Seq<char>),
            RedisTypeParseError,
        >((WireVal::Number(n), suffix)),
{
    let w = spec_ser(WireVal::Number(n), bulk) + suffix;
    let d = spec_dec_i64(n);
    let dl = d.len() as int;
    lemma_dec_i64_line_clean(n);
    assert forall|k: int| 0 <= k < 1 + dl implies #[trigger] w[k] != '\r' by {
        if k >= 1 {
            assert(w[k] == d[k - 1]);
        }
    }
    assert(w[1 + dl] == '\r');
    assert(w[2 + dl] == '\n');
    lemma_find_crlf_after_clean_prefix(w, 1 + dl);
    assert(w.subrange(1, 1 + dl) =~= d);
    lemma_parse_dec_i64(n);
    assert(w.subrange(3 + dl, w.len() as int) =~= suffix);
}

/// An error encoding parses back to its error when its text keeps to one
/// line.
proof fn lemma_parse_ser_error(s: Seq<char>, bulk: bool, suffix: Seq<char>)
    requires
        line_safe(s),
    ensures
        spec_parse_one(spec_ser(WireVal::ErrorText(s), bulk) + suffix) == Ok::<
            (WireVal, Seq<char>),
            RedisTypeParseError,
        >((WireVal::ErrorText(s), suffix)),
{
    let w = spec_ser(WireVal::ErrorText(s), bulk) + suffix;
    let sl = s.len() as int;
    let j = 1 + sl;
    assert(w[j] == '\r');
    assert(w[j + 1] == '\n');
    assert forall|k: int| 0 <= k < j implies !(#[trigger] w[k] == '\r' && w[k + 1] == '\n') by {
        if k >= 1 {
            assert(w[k] == s[k - 1]);
            if k < sl {
                assert(w[k + 1] == s[k]);
            } else {
                assert(w[k + 1] == '\r');
            }
        }
    }
    lemma_find_crlf_exact(w, 0, j);
    assert(w.subrange(1, j) =~= s);
    assert(w.subrange(j + 2, w.len() as int) =~= suffix);
}

/// A string encoding parses back to its string, in either encoding.
proof fn lemma_parse_ser_text(s: Seq<char>, bulk: bool, suffix: Seq<char>)
    requires
        s.len() <= i64::MAX,
    ensures
        spec_parse_one(spec_ser(WireVal::Text(s), bulk) + suffix) == Ok::<
            (WireVal, Seq<char>),
            RedisTypeParseError,
        >((WireVal::Text(s), suffix)),
{
    let w = spec_ser(WireVal::Text(s), bulk) + suffix;
    let sl = s.len() as int;
    if sl == 0 {
        lemma_find_crlf_after_clean_prefix(w, 2);
        assert(w.subrange(1, 2) =~= spec_dec_i64(0));
        lemma_parse_dec_i64(0);
        let rest = w.subrange(4, w.len() as int);
        assert(rest[0] == '\r');
        assert(rest[1] == '\n');
        assert(rest.subrange(0, 0) =~= s);
        assert(rest.subrange(2, rest.len() as int) =~= suffix);
    } else if bulk || has_special(s) {
        let d = spec_dec_nat(sl);
        let dl = d.len() as int;
        lemma_dec_nat_digits(sl);
        assert forall|k: int| 0 <= k < 1 + dl implies #[trigger] w[k] != '\r' by {
            if k >= 1 {
                assert(w[k] == d[k - 1]);
                assert(is_digit(d[k - 1]));
            }
        }
        assert(w[1 + dl] == '\r');
        assert(w[2 + dl] == '\n');
        lemma_find_crlf_after_clean_prefix(w, 1 + dl);
        assert(w.subrange(1, 1 + dl) =~= d);
        assert(d =~= spec_dec_i64(sl));
        lemma_parse_dec_i64(sl);
        let rest = w.subrange(3 + dl, w.len() as int);
        assert(rest.len() == sl + 2 + suffix.len());
        assert forall|k: int| 0 <= k < sl implies #[trigger] rest[k] == s[k] by {
            assert(rest[k] == w[3 + dl + k]);
        }
        assert(rest[sl] == '\r');
        assert(rest[sl + 1] == '\n');
        assert(rest.subrange(0, sl) =~= s);
        assert(rest.subrange(sl + 2, rest.len() as int) =~= suffix);
    } else {
        let j = 1 + sl;
        assert forall|k: int| 0 <= k < j implies #[trigger] w[k] != '\r' by {
            if k >= 1 {
                assert(w[k] == s[k - 1]);
                assert(!(is_ctl_char(s[k - 1]) || s[k - 1] == '\r' || s[k - 1] == '\n'));
            }
        }
        assert(w[j] == '\r');
        assert(w[j + 1] == '\n');
        lemma_find_crlf_after_clean_prefix(w, j);
        assert(w.subrange(1, j) =~= s);
        assert(w.subrange(j + 2, w.len() as int) =~= suffix);
    }
}

/// Parsing the encoding of a well-formed value, with any text after it,
/// returns the value and leaves exactly that text.
pub proof fn lemma_parse_ser(v: WireVal, bulk: bool, suffix: Seq<char>)
    requires
        wf_val(v),
    ensures
        spec_parse_one(spec_ser(v, bulk) + suffix) == Ok::<
            (WireVal, Seq<char>),
            RedisTypeParseError,
        >((v, suffix)),
    decreases v, 1int, 0int,
{
    let w = spec_ser(v, bulk) + suffix;
    match v {
        WireVal::NullString => {
            lemma_parse_ser_null(v, bulk, suffix);
        },
        WireVal::NullArray => {
            lemma_parse_ser_null(v, bulk, suffix);
        },
        WireVal::Number(n) => {
            lemma_parse_ser_number(n, bulk, suffix);
        },
        WireVal::ErrorText(s) => {
            lemma_parse_ser_error(s, bulk, suffix);
        },
        WireVal::Text(s) => {
            lemma_parse_ser_text(s, bulk, suffix);
        },
        WireVal::List(items) => {
            let ll = items.len() as int;
            let d = spec_dec_nat(ll);
            let dl = d.len() as int;
            lemma_dec_nat_digits(ll);
            assert forall|k: int| 0 <= k < 1 + dl implies #[trigger] w[k] != '\r' by {
                if k >= 1 {
                    assert(w[k] == d[k - 1]);
                    assert(is_digit(d[k - 1]));
                }
            }
            assert(w[1 + dl] == '\r');
            assert(w[2 + dl] == '\n');
            lemma_find_crlf_after_clean_prefix(w, 1 + dl);
            assert(w.subrange(1, 1 + dl) =~= d);
            assert(d =~= spec_dec_i64(ll));
            lemma_parse_dec_i64(ll);
            let rest = w.subrange(3 + dl, w.len() as int);
            assert(rest =~= spec_ser_items(items, 0, bulk) + suffix);
            lemma_wfs_vals(items);
            lemma_parse_ser_items(items, 0, bulk, suffix);
            assert(items.subrange(0, ll) =~= items);
        },
    }
}

/// Parsing the concatenated encodings of `items[i..]`, with any text after
/// them, returns those values and leaves exactly that text.
pub proof fn lemma_parse_ser_items(items: Seq<WireVal>, i: int, bulk: bool, suffix: Seq<char>)
    requires
        0 <= i <= items.len(),
        forall|k: int| 0 <= k < items.len() ==> wf_val(#[trigger] items[k]),
    ensures
        spec_parse_items(spec_ser_items(items, i, bulk) + suffix, items.len() - i) == Ok::<
            (Seq<WireVal>, Seq<char>),
            RedisTypeParseError,
        >((items.subrange(i, items.len() as int), suffix)),
    decreases items, 0int, items.len() - i,
{
    let ll = items.len() as int;
    let w = spec_ser_items(items, i, bulk) + suffix;
    if i == ll {
        assert(w =~= suffix);
        assert(items.subrange(i, ll) =~= Seq::<WireVal>::empty());
    } else {
        let suf2 = spec_ser_items(items, i + 1, bulk) + suffix;
        assert(w =~= spec_ser(items[i], bulk) + suf2);
        lemma_parse_ser(items[i], bulk, suf2);
        lemma_ser_len(items[i], bulk);
        lemma_parse_ser_items(items, i + 1, bulk, suffix);
        assert(seq![items[i]] + items.subrange(i + 1, ll) =~= items.subrange(i, ll));
    }
}

/// Round trip: the text of a well-formed value parses back to the value,
/// whichever string encoding the serializer was asked for.
pub proof fn lemma_roundtrip(v: WireVal, bulk: bool)
    requires
        wf_val(v),
    ensures
        spec_parse(spec_ser(v, bulk)) == Ok::<WireVal, RedisTypeParseError>(v),
{
    lemma_parse_ser(v, bulk, Seq::<char>::empty());
    assert(spec_ser(v, bulk) + Seq::<char>::empty() =~= spec_ser(v, bulk));
}

/// Canonical re-encoding: text produced by the serializer parses, and
/// serializing the parsed value gives the same text back.
pub proof fn lemma_reencode(s: Seq<char>, v: WireVal, bulk: bool)
    requires
        wf_val(v),
        s == spec_ser(v, bulk),
    ensures
        spec_parse(s) matches Ok(w) && spec_ser(w, bulk) == s,
{
    lemma_roundtrip(v, bulk);
}

/// The encoding choice for strings: text free of control characters and
/// line breaks takes the one-line encoding, any other non-empty text the
/// length-prefixed one.
pub proof fn lemma_encoding_choice(s: Seq<char>)
    ensures
        s.len() > 0 && !has_special(s) ==> spec_ser(WireVal::Text(s), false) == seq!['+'] + s
            + crlf(),
        s.len() > 0 && has_special(s) ==> spec_ser(WireVal::Text(s), false) == seq!['$']
            + spec_dec_nat(s.len() as int) + crlf() + s + crlf(),
{
}

impl RedisType {
    /// Reads one complete value covering the whole input, as [`spec_parse`]
    /// states it; leftover text after the value is an error.
    pub fn parse_wire(s: &str) -> (r: Result<RedisType, RedisTypeParseError>)
        ensures
            match r {
                Ok(v) => spec_parse(s@) == Ok::<WireVal, RedisTypeParseError>(rt_view(v)),
                Err(e) => spec_parse(s@) == Err::<WireVal, RedisTypeParseError>(e),
            },
    {
        match parse_one(s) {
            Ok((v, rest)) => {
                if rest.unicode_len() == 0 {
                    Ok(v)
                } else {
                    Err(RedisTypeParseError::LeftOverData)
                }
            },
            Err(e) => Err(e),
        }
    }
}

impl FromStr for RedisType {
    type Err = RedisTypeParseError;

    fn from_str(s: &str) -> Result<Self, RedisTypeParseError> {
        RedisType::parse_wire(s)
    }
}

} // verus!
