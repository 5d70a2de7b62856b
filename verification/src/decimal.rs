//! Verified decimal text for 64-bit integers.
//!
//! [`spec_dec_nat`] and [`spec_dec_i64`] give the canonical decimal text of a
//! number; [`spec_parse_i64`] reads optionally signed decimal text the way
//! `str::parse::<i64>` does (an optional `+` or `-`, then one or more
//! digits, rejecting values outside the 64-bit range). The executable
//! functions are proved against these, and [`lemma_parse_dec_i64`] closes the
//! round trip.

use vstd::prelude::*;
use vstd::string::StrSliceExecFns;
use vstd::string::StringExecFns;
use crate::strutil::push_char;

verus! {

pub open spec fn is_digit(c: char) -> bool {
    '0' <= c && c <= '9'
}

pub open spec fn digit_val(c: char) -> int {
    (c as u32) - 48
}

pub open spec fn digit_char(d: int) -> char {
    if d == 0 {
        '0'
    } else if d == 1 {
        '1'
    } else if d == 2 {
        '2'
    } else if d == 3 {
        '3'
    } else if d == 4 {
        '4'
    } else if d == 5 {
        '5'
    } else if d == 6 {
        '6'
    } else if d == 7 {
        '7'
    } else if d == 8 {
        '8'
    } else {
        '9'
    }
}

/// The decimal digits of a non-negative number, most significant first.
pub open spec fn spec_dec_nat(n: int) -> Seq<char>
    decreases n,
{
    if n < 10 {
        seq![digit_char(if n < 0 { 0 } else { n })]
    } else {
        spec_dec_nat(n / 10).push(digit_char(n % 10))
    }
}

/// The decimal text of a signed number: a `-` sign for negatives, then the
/// digits of the magnitude.
pub open spec fn spec_dec_i64(n: int) -> Seq<char> {
    if n < 0 {
        seq!['-'] + spec_dec_nat(-n)
    } else {
        spec_dec_nat(n)
    }
}

pub open spec fn all_digits(s: Seq<char>) -> bool {
    forall|i: int| 0 <= i < s.len() ==> is_digit(s[i])
}

/// The value of a digit string, most significant digit first.
pub open spec fn digits_val(s: Seq<char>) -> int
    decreases s.len(),
{
    if s.len() == 0 {
        0
    } else {
        digits_val(s.drop_last()) * 10 + digit_val(s.last())
    }
}

/// What `str::parse::<i64>` accepts and returns: an optional sign, then one
/// or more digits, with the signed value inside the 64-bit range.
pub open spec fn spec_parse_i64(s: Seq<char>) -> Option<int> {
    let signed = s.len() > 0 && (s[0] == '+' || s[0] == '-');
    let neg = s.len() > 0 && s[0] == '-';
    let ds = if signed {
        s.subrange(1, s.len() as int)
    } else {
        s
    };
    if ds.len() == 0 || !all_digits(ds) {
        None
    } else {
        let v = if neg {
            -digits_val(ds)
        } else {
            digits_val(ds)
        };
        if i64::MIN <= v <= i64::MAX {
            Some(v)
        } else {
            None
        }
    }
}

/// The digits of a non-negative number are digits, and there is at least one.
pub proof fn lemma_dec_nat_digits(n: int)
    ensures
        spec_dec_nat(n).len() >= 1,
        all_digits(spec_dec_nat(n)),
    decreases n,
{
    if n >= 10 {
        lemma_dec_nat_digits(n / 10);
    }
}

/// Reading back the digits of `n` gives `n`.
pub proof fn lemma_dec_nat_val(n: int)
    requires
        n >= 0,
    ensures
        digits_val(spec_dec_nat(n)) == n,
    decreases n,
{
    if n < 10 {
        let s = seq![digit_char(n)];
        assert(spec_dec_nat(n) =~= s);
        assert(s.drop_last() =~= Seq::<char>::empty());
        assert(s.last() == digit_char(n));
        assert(digits_val(s) == digits_val(Seq::<char>::empty()) * 10 + digit_val(digit_char(n)));
        assert(digit_val(digit_char(n)) == n);
    } else {
        lemma_dec_nat_val(n / 10);
        let s = spec_dec_nat(n / 10).push(digit_char(n % 10));
        assert(s.drop_last() =~= spec_dec_nat(n / 10));
        assert(s.last() == digit_char(n % 10));
    }
}

/// A digit string's value is non-negative.
pub proof fn lemma_digits_val_nonneg(s: Seq<char>)
    requires
        all_digits(s),
    ensures
        digits_val(s) >= 0,
    decreases s.len(),
{
    if s.len() > 0 {
        assert(all_digits(s.drop_last()));
        lemma_digits_val_nonneg(s.drop_last());
    }
}

/// Extending a digit string only grows its value.
pub proof fn lemma_digits_val_prefix(s: Seq<char>, k: int)
    requires
        all_digits(s),
        0 <= k <= s.len(),
    ensures
        digits_val(s.subrange(0, k)) <= digits_val(s),
    decreases s.len() - k,
{
    if k < s.len() {
        lemma_digits_val_prefix(s, k + 1);
        let a = s.subrange(0, k);
        let b = s.subrange(0, k + 1);
        assert(b.drop_last() =~= a);
        assert(all_digits(a));
        lemma_digits_val_nonneg(a);
        assert(digits_val(b) == digits_val(a) * 10 + digit_val(b.last()));
        assert(digits_val(a) * 10 >= digits_val(a)) by (nonlinear_arith)
            requires
                digits_val(a) >= 0,
        ;
    } else {
        assert(s.subrange(0, k) =~= s);
    }
}

/// Parsing the canonical decimal text of `n` returns `n`.
pub proof fn lemma_parse_dec_i64(n: int)
    requires
        i64::MIN <= n <= i64::MAX,
    ensures
        spec_parse_i64(spec_dec_i64(n)) == Some(n),
{
    if n >= 0 {
        lemma_dec_nat_digits(n);
        lemma_dec_nat_val(n);
        let s = spec_dec_nat(n);
        assert(is_digit(s[0]));
        assert(s[0] != '+' && s[0] != '-');
    } else {
        lemma_dec_nat_digits(-n);
        lemma_dec_nat_val(-n);
        let s = seq!['-'] + spec_dec_nat(-n);
        assert(s[0] == '-');
        assert(s.subrange(1, s.len() as int) =~= spec_dec_nat(-n));
    }
}

/// The decimal text of a number holds no carriage return and no line feed.
pub proof fn lemma_dec_i64_line_clean(n: int)
    ensures
        forall|i: int|
            0 <= i < spec_dec_i64(n).len() ==> spec_dec_i64(n)[i] != '\r' && spec_dec_i64(n)[i]
                != '\n',
{
    if n < 0 {
        lemma_dec_nat_digits(-n);
    } else {
        lemma_dec_nat_digits(n);
    }
}

/// Parses optionally signed decimal text as a 64-bit integer, exactly as
/// [`spec_parse_i64`] describes.
pub fn parse_i64(s: &str) -> (r: Option<i64>)
    ensures
        match r {
            Some(v) => spec_parse_i64(s@) == Some(v as int),
            None => spec_parse_i64(s@) is None,
        },
{
    let n: usize = s.unicode_len();
    if n == 0 {
        return None;
    }
    let c0 = s.get_char(0);
    let neg = c0 == '-';
    let start: usize = if c0 == '+' || c0 == '-' {
        1
    } else {
        0
    };
    if start >= n {
        return None;
    }
    let ghost ds = if start == 1 {
        s@.subrange(1, s@.len() as int)
    } else {
        s@
    };
    let mut acc: u64 = 0;
    let mut i: usize = start;
    while i < n
        invariant
            n == s@.len(),
            n > 0,
            start <= i <= n,
            start <= 1,
            (start == 1) == (s@[0] == '+' || s@[0] == '-'),
            neg == (s@[0] == '-'),
            ds == if start == 1 {
                s@.subrange(1, s@.len() as int)
            } else {
                s@
            },
            ds.len() == n - start,
            forall|k: int| 0 <= k < ds.len() ==> ds[k] == s@[k + start],
            all_digits(ds.subrange(0, i - start)),
            acc as int == digits_val(ds.subrange(0, i - start)),
        decreases n - i,
    {
        let c = s.get_char(i);
        if !('0' <= c && c <= '9') {
            assert(!is_digit(ds[i - start]));
            return None;
        }
        let d: u64 = ((c as u32) - 48) as u64;
        let ghost pre = ds.subrange(0, i - start);
        let ghost ext = ds.subrange(0, i + 1 - start);
        proof {
            assert(ext.drop_last() =~= pre);
            assert(ext.last() == ds[i - start]);
            assert(digits_val(ext) == digits_val(pre) * 10 + d);
        }
        if acc > (u64::MAX - d) / 10 {
            // The value certainly exceeds the 64-bit range, whatever follows.
            proof {
                assert(acc as int * 10 + d > u64::MAX) by (nonlinear_arith)
                    requires
                        acc as int > (u64::MAX - d) / 10,
                        0 <= d <= 9,
                ;
                if all_digits(ds) {
                    lemma_digits_val_prefix(ds, i + 1 - start);
                    assert(digits_val(ds) >= digits_val(ext));
                    assert(digits_val(ds) > u64::MAX);
                }
            }
            return None;
        }
        proof {
            assert(acc as int * 10 + d <= u64::MAX) by (nonlinear_arith)
                requires
                    acc as int <= (u64::MAX - d) / 10,
                    0 <= d <= 9,
            ;
        }
        acc = acc * 10 + d;
        i += 1;
    }
    proof {
        assert(ds.subrange(0, n - start) =~= ds);
    }
    if neg {
        if acc > 9223372036854775808u64 {
            return None;
        }
        if acc == 9223372036854775808u64 {
            Some(i64::MIN)
        } else {
            Some(-(acc as i64))
        }
    } else {
        if acc > i64::MAX as u64 {
            return None;
        }
        Some(acc as i64)
    }
}

/// The character of one digit.
fn digit_to_char(d: u64) -> (c: char)
    requires
        d < 10,
    ensures
        c == digit_char(d as int),
{
    match d {
        0 => '0',
        1 => '1',
        2 => '2',
        3 => '3',
        4 => '4',
        5 => '5',
        6 => '6',
        7 => '7',
        8 => '8',
        _ => '9',
    }
}

/// Writes the decimal digits of `n`.
pub fn fmt_u64(n: u64) -> (out: String)
    ensures
        out@ == spec_dec_nat(n as int),
{
    let mut chars: Vec<char> = Vec::new();
    let mut cur: u64 = n;
    proof {
        assert(spec_dec_nat(n as int) + Seq::<char>::empty() =~= spec_dec_nat(n as int));
    }
    while cur >= 10
        invariant
            spec_dec_nat(n as int) == spec_dec_nat(cur as int) + chars@,
        decreases cur,
    {
        let d: u64 = cur % 10;
        let c: char = digit_to_char(d);
        let ghost before = chars@;
        chars.insert(0, c);
        proof {
            assert(chars@ =~= seq![c] + before);
            assert(spec_dec_nat(cur as int) == spec_dec_nat(cur as int / 10).push(
                digit_char(cur as int % 10),
            ));
            assert(spec_dec_nat(cur as int / 10).push(digit_char(cur as int % 10)) + before
                =~= spec_dec_nat(cur as int / 10) + (seq![c] + before));
        }
        cur = cur / 10;
    }
    let c: char = digit_to_char(cur);
    let ghost before = chars@;
    chars.insert(0, c);
    proof {
        assert(chars@ =~= seq![c] + before);
        assert(spec_dec_nat(cur as int) =~= seq![digit_char(cur as int)]);
        assert(seq![digit_char(cur as int)] + before =~= chars@);
    }
    let mut out = String::new();
    let mut j: usize = 0;
    let nn: usize = chars.len();
    while j < nn
        invariant
            nn == chars@.len(),
            0 <= j <= nn,
            out@ =~= chars@.subrange(0, j as int),
        decreases nn - j,
    {
        push_char(&mut out, chars[j]);
        proof {
            assert(out@ =~= chars@.subrange(0, j + 1));
        }
        j += 1;
    }
    proof {
        assert(chars@.subrange(0, nn as int) =~= chars@);
    }
    out
}

/// Writes the decimal text of `n`, sign included.
pub fn fmt_i64(n: i64) -> (out: String)
    ensures
        out@ == spec_dec_i64(n as int),
{
    if n >= 0 {
        let out = fmt_u64(n as u64);
        out
    } else {
        let m: u64 = if n == i64::MIN {
            9223372036854775808u64
        } else {
            (-n) as u64
        };
        let mut out = String::new();
        push_char(&mut out, '-');
        let digits = fmt_u64(m);
        out.append(digits.as_str());
        proof {
            assert(out@ =~= seq!['-'] + spec_dec_nat(-(n as int)));
        }
        out
    }
}

/// Writes the decimal digits of a length.
pub fn fmt_usize(n: usize) -> (out: String)
    ensures
        out@ == spec_dec_nat(n as int),
{
    fmt_u64(n as u64)
}

} // verus!
