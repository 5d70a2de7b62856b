//! The command engine: argument checking, the command table, and the
//! handlers that read and mutate the [`Store`].
//!
//! Every handler is specified as a pure transition on the store's two maps:
//! [`spec_execute`] gives, for each command, the reply and the maps after
//! the call, and the executable [`execute`] is proved equal to it.

use vstd::prelude::*;
use vstd::string::StrSliceExecFns;
use vstd::string::StringExecFns;
use crate::codec::spec_ser;
use crate::decimal::fmt_i64;
use crate::decimal::fmt_usize;
use crate::decimal::parse_i64;
use crate::decimal::spec_dec_i64;
use crate::decimal::spec_dec_nat;
use crate::decimal::spec_parse_i64;
use crate::store::Store;
use crate::strutil::spec_upper;
use crate::strutil::str_eq;
use crate::strutil::to_upper;
use crate::wire::RedisType;
use crate::wire::WireVal;
use crate::wire::lemma_rts_view;
use crate::wire::rt_view;
use crate::wire::rts_view;

verus! {

// ------------------------------------------------------------------
// Error messages
// ------------------------------------------------------------------

pub open spec fn msg_expected_args(n: int, got: int) -> Seq<char> {
    "Expected "@ + spec_dec_nat(n) + " args, got "@ + spec_dec_nat(got)
}

pub open spec fn msg_expected_at_least(n: int, got: int) -> Seq<char> {
    "Expected at least "@ + spec_dec_nat(n) + " args, got "@ + spec_dec_nat(got)
}

pub open spec fn msg_expected_even(got: int) -> Seq<char> {
    "Expected an even number of args, got "@ + spec_dec_nat(got)
}

pub open spec fn msg_not_enough_args() -> Seq<char> {
    "Not enough args"@
}

pub open spec fn msg_bad_string_arg(v: WireVal) -> Seq<char> {
    "Attempted to use "@ + spec_ser(v, false) + " as a string"@
}

pub open spec fn msg_bad_integer_arg(v: WireVal) -> Seq<char> {
    "Attempted to use "@ + spec_ser(v, false) + " as an integer"@
}

pub open spec fn msg_not_integer() -> Seq<char> {
    "Value is not an integer or out of range"@
}

pub open spec fn msg_invalid_expire() -> Seq<char> {
    "Invalid expire time"@
}

pub open spec fn msg_value_too_long() -> Seq<char> {
    "Value is too long"@
}

pub open spec fn msg_offset_out_of_range() -> Seq<char> {
    "Offset is out of range"@
}

pub open spec fn msg_invalid_argument() -> Seq<char> {
    "Invalid argument"@
}

pub open spec fn msg_nx_and_xx() -> Seq<char> {
    "SET: Cannot set both NX and XX"@
}

pub open spec fn msg_multiple_ttl() -> Seq<char> {
    "SET: Cannot set more than one of EX/PX/EXAT/PXAT/KEEPTTL"@
}

pub open spec fn msg_only_docs() -> Seq<char> {
    "Only DOCS is supported"@
}

pub open spec fn msg_unexpected_param(v: WireVal) -> Seq<char> {
    "Unexpected parameter: "@ + spec_ser(v, false)
}

pub open spec fn msg_unimplemented(name: Seq<char>) -> Seq<char> {
    "Unimplemented command: "@ + name
}

fn err_expected_args(n: usize, got: usize) -> (r: String)
    ensures
        r@ == msg_expected_args(n as int, got as int),
{
    let mut r = "Expected ".to_owned();
    let a = fmt_usize(n);
    r.append(a.as_str());
    r.append(" args, got ");
    let b = fmt_usize(got);
    r.append(b.as_str());
    r
}

fn err_expected_at_least(n: usize, got: usize) -> (r: String)
    ensures
        r@ == msg_expected_at_least(n as int, got as int),
{
    let mut r = "Expected at least ".to_owned();
    let a = fmt_usize(n);
    r.append(a.as_str());
    r.append(" args, got ");
    let b = fmt_usize(got);
    r.append(b.as_str());
    r
}

fn err_expected_even(got: usize) -> (r: String)
    ensures
        r@ == msg_expected_even(got as int),
{
    let mut r = "Expected an even number of args, got ".to_owned();
    let b = fmt_usize(got);
    r.append(b.as_str());
    r
}

fn err_bad_string_arg(v: &RedisType) -> (r: String)
    ensures
        r@ == msg_bad_string_arg(rt_view(*v)),
{
    let mut r = "Attempted to use ".to_owned();
    let w = v.serialize(false);
    r.append(w.as_str());
    r.append(" as a string");
    r
}

fn err_bad_integer_arg(v: &RedisType) -> (r: String)
    ensures
        r@ == msg_bad_integer_arg(rt_view(*v)),
{
    let mut r = "Attempted to use ".to_owned();
    let w = v.serialize(false);
    r.append(w.as_str());
    r.append(" as an integer");
    r
}

fn err_unexpected_param(v: &RedisType) -> (r: String)
    ensures
        r@ == msg_unexpected_param(rt_view(*v)),
{
    let mut r = "Unexpected parameter: ".to_owned();
    let w = v.serialize(false);
    r.append(w.as_str());
    r
}

// ------------------------------------------------------------------
// Argument coercion
// ------------------------------------------------------------------

/// The string form of an argument: text as-is, an integer as its decimal
/// text; anything else is a coercion error.
pub open spec fn spec_str_arg(args: Seq<WireVal>, i: int) -> Result<Seq<char>, Seq<char>> {
    if i >= args.len() {
        Err(msg_not_enough_args())
    } else {
        match args[i] {
            WireVal::Text(s) => Ok(s),
            WireVal::Number(n) => Ok(spec_dec_i64(n)),
            _ => Err(msg_bad_string_arg(args[i])),
        }
    }
}

/// The integer form of an argument: an integer as-is, text parsed as a
/// signed 64-bit decimal; anything else is a coercion error.
pub open spec fn spec_int_arg(args: Seq<WireVal>, i: int) -> Result<int, Seq<char>> {
    if i >= args.len() {
        Err(msg_not_enough_args())
    } else {
        match args[i] {
            WireVal::Text(s) => match spec_parse_i64(s) {
                Some(v) => Ok(v),
                None => Err(msg_bad_integer_arg(args[i])),
            },
            WireVal::Number(n) => Ok(n),
            _ => Err(msg_bad_integer_arg(args[i])),
        }
    }
}

/// Whether the argument's string form, upper-cased, is the keyword, which
/// is given upper-case.
pub open spec fn spec_is_kw(args: Seq<WireVal>, i: int, kw: Seq<char>) -> Result<bool, Seq<char>> {
    match spec_str_arg(args, i) {
        Ok(s) => Ok(spec_upper(s) == kw),
        Err(e) => Err(e),
    }
}

fn get_string_arg(args: &Vec<RedisType>, i: usize) -> (r: Result<String, String>)
    ensures
        match r {
            Ok(s) => spec_str_arg(rts_view(args@), i as int) == Ok::<Seq<char>, Seq<char>>(s@),
            Err(m) => spec_str_arg(rts_view(args@), i as int) == Err::<Seq<char>, Seq<char>>(m@),
        },
{
    proof {
        lemma_rts_view(args@);
    }
    if i >= args.len() {
        return Err("Not enough args".to_owned());
    }
    match &args[i] {
        RedisType::String { value } => Ok(value.clone()),
        RedisType::Integer { value } => Ok(fmt_i64(*value)),
        _ => Err(err_bad_string_arg(&args[i])),
    }
}

fn get_integer_arg(args: &Vec<RedisType>, i: usize) -> (r: Result<i64, String>)
    ensures
        match r {
            Ok(v) => spec_int_arg(rts_view(args@), i as int) == Ok::<int, Seq<char>>(v as int),
            Err(m) => spec_int_arg(rts_view(args@), i as int) == Err::<int, Seq<char>>(m@),
        },
{
    proof {
        lemma_rts_view(args@);
    }
    if i >= args.len() {
        return Err("Not enough args".to_owned());
    }
    match &args[i] {
        RedisType::String { value } => match parse_i64(value.as_str()) {
            Some(v) => Ok(v),
            None => Err(err_bad_integer_arg(&args[i])),
        },
        RedisType::Integer { value } => Ok(*value),
        _ => Err(err_bad_integer_arg(&args[i])),
    }
}

/// Tests the argument at `i` against an upper-case keyword.
fn is_kw(args: &Vec<RedisType>, i: usize, kw: &str) -> (r: Result<bool, String>)
    ensures
        match r {
            Ok(b) => spec_is_kw(rts_view(args@), i as int, kw@) == Ok::<bool, Seq<char>>(b),
            Err(m) => spec_is_kw(rts_view(args@), i as int, kw@) == Err::<bool, Seq<char>>(m@),
        },
{
    match get_string_arg(args, i) {
        Ok(s) => {
            let up = to_upper(s.as_str());
            Ok(str_eq(up.as_str(), kw))
        },
        Err(m) => Err(m),
    }
}

// ------------------------------------------------------------------
// Expiration clauses
// ------------------------------------------------------------------

/// The absolute instant of one expiration operand: `base` plus the operand
/// scaled to milliseconds. A negative operand, or one whose instant cannot
/// be held in 64 bits, is rejected.
pub open spec fn spec_exp_value(args: Seq<WireVal>, j: int, base: int, scale: int) -> Result<
    Option<u64>,
    Seq<char>,
> {
    match spec_int_arg(args, j) {
        Err(e) => Err(e),
        Ok(v) => if v < 0 || base + v * scale > u64::MAX {
            Err(msg_invalid_expire())
        } else {
            Ok(Some((base + v * scale) as u64))
        },
    }
}

/// Reads an expiration clause at `i`: `EX`/`PX` give an instant relative to
/// `now`, `EXAT`/`PXAT` an absolute one; any other keyword is no clause.
/// The clause consumes the keyword and the operand after it.
pub open spec fn spec_expiration(args: Seq<WireVal>, i: int, now: u64) -> Result<
    Option<u64>,
    Seq<char>,
> {
    match spec_str_arg(args, i) {
        Err(e) => Err(e),
        Ok(s) => {
            let u = spec_upper(s);
            if u == "EX"@ {
                spec_exp_value(args, i + 1, now as int, 1000)
            } else if u == "PX"@ {
                spec_exp_value(args, i + 1, now as int, 1)
            } else if u == "EXAT"@ {
                spec_exp_value(args, i + 1, 0, 1000)
            } else if u == "PXAT"@ {
                spec_exp_value(args, i + 1, 0, 1)
            } else {
                Ok(None)
            }
        },
    }
}

/// The executable form of [`spec_expiration`].
fn get_expiration(args: &Vec<RedisType>, i: usize, now: u64) -> (r: Result<Option<u64>, String>)
    ensures
        match r {
            Ok(o) => spec_expiration(rts_view(args@), i as int, now) == Ok::<
                Option<u64>,
                Seq<char>,
            >(o),
            Err(m) => spec_expiration(rts_view(args@), i as int, now) == Err::<
                Option<u64>,
                Seq<char>,
            >(m@),
        },
{
    let s = match get_string_arg(args, i) {
        Ok(s) => s,
        Err(m) => {
            return Err(m);
        },
    };
    proof {
        lemma_rts_view(args@);
        assert(i < args.len());
    }
    let up = to_upper(s.as_str());
    if str_eq(up.as_str(), "EX") {
        exp_value(args, i + 1, now, 1000)
    } else if str_eq(up.as_str(), "PX") {
        exp_value(args, i + 1, now, 1)
    } else if str_eq(up.as_str(), "EXAT") {
        exp_value(args, i + 1, 0, 1000)
    } else if str_eq(up.as_str(), "PXAT") {
        exp_value(args, i + 1, 0, 1)
    } else {
        Ok(None)
    }
}

/// One expiration operand, scaled and offset with checked arithmetic.
fn exp_value(args: &Vec<RedisType>, j: usize, base: u64, scale: u64) -> (r: Result<
    Option<u64>,
    String,
>)
    requires
        scale == 1 || scale == 1000,
    ensures
        match r {
            Ok(o) => spec_exp_value(rts_view(args@), j as int, base as int, scale as int) == Ok::<
                Option<u64>,
                Seq<char>,
            >(o),
            Err(m) => spec_exp_value(rts_view(args@), j as int, base as int, scale as int) == Err::<
                Option<u64>,
                Seq<char>,
            >(m@),
        },
{
    let v = match get_integer_arg(args, j) {
        Ok(v) => v,
        Err(m) => {
            return Err(m);
        },
    };
    if v < 0 {
        return Err("Invalid expire time".to_owned());
    }
    let vu: u64 = v as u64;
    if scale > 1 && vu > u64::MAX / scale {
        proof {
            assert(vu as int * (scale as int) > u64::MAX) by (nonlinear_arith)
                requires
                    vu as int > u64::MAX as int / (scale as int),
                    scale == 1000,
            ;
        }
        return Err("Invalid expire time".to_owned());
    }
    proof {
        if scale > 1 {
            assert(vu as int * (scale as int) <= u64::MAX) by (nonlinear_arith)
                requires
                    vu as int <= u64::MAX as int / (scale as int),
                    scale == 1000,
            ;
        }
    }
    let prod: u64 = vu * scale;
    if base > u64::MAX - prod {
        return Err("Invalid expire time".to_owned());
    }
    Ok(Some(base + prod))
}

// ------------------------------------------------------------------
// Command transitions
// ------------------------------------------------------------------

/// What one command does: the reply (or validation error), and the two maps
/// after it ran.
pub struct CmdOutcome {
    pub reply: Result<WireVal, Seq<char>>,
    pub kv: Map<Seq<char>, Seq<char>>,
    pub ttl: Map<Seq<char>, u64>,
}

/// An outcome that leaves the store as it was.
pub open spec fn unchanged(
    r: Result<WireVal, Seq<char>>,
    kv: Map<Seq<char>, Seq<char>>,
    ttl: Map<Seq<char>, u64>,
) -> CmdOutcome {
    CmdOutcome { reply: r, kv: kv, ttl: ttl }
}

/// `COMMAND DOCS`: an empty array; anything else is rejected.
pub open spec fn spec_cmd_command(
    kv: Map<Seq<char>, Seq<char>>,
    ttl: Map<Seq<char>, u64>,
    args: Seq<WireVal>,
) -> CmdOutcome {
    if args.len() != 1 {
        unchanged(Err(msg_expected_args(1, args.len() as int)), kv, ttl)
    } else {
        match spec_is_kw(args, 0, "DOCS"@) {
            Err(e) => unchanged(Err(e), kv, ttl),
            Ok(false) => unchanged(Err(msg_only_docs()), kv, ttl),
            Ok(true) => unchanged(Ok(WireVal::List(Seq::empty())), kv, ttl),
        }
    }
}

/// `APPEND key value`: concatenates onto the stored text, creating it if
/// absent, and replies with the new length.
pub open spec fn spec_cmd_append(
    kv: Map<Seq<char>, Seq<char>>,
    ttl: Map<Seq<char>, u64>,
    args: Seq<WireVal>,
) -> CmdOutcome {
    if args.len() != 2 {
        unchanged(Err(msg_expected_args(2, args.len() as int)), kv, ttl)
    } else {
        match (spec_str_arg(args, 0), spec_str_arg(args, 1)) {
            (Err(e), _) => unchanged(Err(e), kv, ttl),
            (Ok(_), Err(e)) => unchanged(Err(e), kv, ttl),
            (Ok(key), Ok(value)) => {
                let nv = if kv.contains_key(key) {
                    kv[key] + value
                } else {
                    value
                };
                if nv.len() > i64::MAX {
                    unchanged(Err(msg_value_too_long()), kv, ttl)
                } else {
                    CmdOutcome {
                        reply: Ok(WireVal::Number(nv.len() as int)),
                        kv: kv.insert(key, nv),
                        ttl: ttl,
                    }
                }
            },
        }
    }
}

/// The shared increment step: the stored text parsed as a 64-bit integer
/// (0 if the key is absent), moved by `delta` with checked arithmetic,
/// stored back as text and returned.
pub open spec fn spec_incr_by(
    kv: Map<Seq<char>, Seq<char>>,
    ttl: Map<Seq<char>, u64>,
    key: Seq<char>,
    delta: int,
) -> CmdOutcome {
    let cur = if kv.contains_key(key) {
        spec_parse_i64(kv[key])
    } else {
        Some(0)
    };
    match cur {
        None => unchanged(Err(msg_not_integer()), kv, ttl),
        Some(v) => {
            let nv = v + delta;
            if nv < i64::MIN || nv > i64::MAX {
                unchanged(Err(msg_not_integer()), kv, ttl)
            } else {
                CmdOutcome {
                    reply: Ok(WireVal::Number(nv)),
                    kv: kv.insert(key, spec_dec_i64(nv)),
                    ttl: ttl,
                }
            }
        },
    }
}

/// `INCR`/`DECR`/`INCRBY`/`DECRBY`, with the delta already signed.
pub open spec fn spec_cmd_incr(
    kv: Map<Seq<char>, Seq<char>>,
    ttl: Map<Seq<char>, u64>,
    args: Seq<WireVal>,
    arity: int,
    negate: bool,
) -> CmdOutcome {
    if args.len() != arity {
        unchanged(Err(msg_expected_args(arity, args.len() as int)), kv, ttl)
    } else {
        match spec_str_arg(args, 0) {
            Err(e) => unchanged(Err(e), kv, ttl),
            Ok(key) => {
                let d = if arity == 1 {
                    Ok::<int, Seq<char>>(1int)
                } else {
                    spec_int_arg(args, 1)
                };
                match d {
                    Err(e) => unchanged(Err(e), kv, ttl),
                    Ok(dv) => spec_incr_by(
                        kv,
                        ttl,
                        key,
                        if negate {
                            -dv
                        } else {
                            dv
                        },
                    ),
                }
            },
        }
    }
}

/// `GET key`: the value, or the null string.
pub open spec fn spec_cmd_get(
    kv: Map<Seq<char>, Seq<char>>,
    ttl: Map<Seq<char>, u64>,
    args: Seq<WireVal>,
) -> CmdOutcome {
    if args.len() != 1 {
        unchanged(Err(msg_expected_args(1, args.len() as int)), kv, ttl)
    } else {
        match spec_str_arg(args, 0) {
            Err(e) => unchanged(Err(e), kv, ttl),
            Ok(key) => unchanged(
                Ok(
                    if kv.contains_key(key) {
                        WireVal::Text(kv[key])
                    } else {
                        WireVal::NullString
                    },
                ),
                kv,
                ttl,
            ),
        }
    }
}

/// `GETDEL key`: the value (or null), with the key removed.
pub open spec fn spec_cmd_getdel(
    kv: Map<Seq<char>, Seq<char>>,
    ttl: Map<Seq<char>, u64>,
    args: Seq<WireVal>,
) -> CmdOutcome {
    if args.len() != 1 {
        unchanged(Err(msg_expected_args(1, args.len() as int)), kv, ttl)
    } else {
        match spec_str_arg(args, 0) {
            Err(e) => unchanged(Err(e), kv, ttl),
            Ok(key) => CmdOutcome {
                reply: Ok(
                    if kv.contains_key(key) {
                        WireVal::Text(kv[key])
                    } else {
                        WireVal::NullString
                    },
                ),
                kv: kv.remove(key),
                ttl: ttl,
            },
        }
    }
}

/// `GETEX key [expiry-clause | PERSIST]`: the value (or null); the
/// expiration entry is set, cleared, or left alone. Arguments after the
/// clause are ignored.
pub open spec fn spec_cmd_getex(
    kv: Map<Seq<char>, Seq<char>>,
    ttl: Map<Seq<char>, u64>,
    args: Seq<WireVal>,
    now: u64,
) -> CmdOutcome {
    if args.len() < 1 {
        unchanged(Err(msg_expected_at_least(1, args.len() as int)), kv, ttl)
    } else {
        match spec_str_arg(args, 0) {
            Err(e) => unchanged(Err(e), kv, ttl),
            Ok(key) => {
                let reply = Ok(
                    if kv.contains_key(key) {
                        WireVal::Text(kv[key])
                    } else {
                        WireVal::NullString
                    },
                );
                if args.len() > 1 {
                    match spec_is_kw(args, 1, "PERSIST"@) {
                        Err(e) => unchanged(Err(e), kv, ttl),
                        Ok(true) => CmdOutcome { reply: reply, kv: kv, ttl: ttl.remove(key) },
                        Ok(false) => match spec_expiration(args, 1, now) {
                            Err(e) => unchanged(Err(e), kv, ttl),
                            Ok(None) => unchanged(Err(msg_invalid_argument()), kv, ttl),
                            Ok(Some(inst)) => CmdOutcome {
                                reply: reply,
                                kv: kv,
                                ttl: ttl.insert(key, inst),
                            },
                        },
                    }
                } else {
                    unchanged(reply, kv, ttl)
                }
            },
        }
    }
}

/// `GETRANGE key start end`: the substring under indices clamped into the
/// value's range, both ends inclusive; a crossed range is empty.
pub open spec fn spec_cmd_getrange(
    kv: Map<Seq<char>, Seq<char>>,
    ttl: Map<Seq<char>, u64>,
    args: Seq<WireVal>,
) -> CmdOutcome {
    if args.len() != 3 {
        unchanged(Err(msg_expected_args(3, args.len() as int)), kv, ttl)
    } else {
        match (spec_str_arg(args, 0), spec_int_arg(args, 1), spec_int_arg(args, 2)) {
            (Err(e), _, _) => unchanged(Err(e), kv, ttl),
            (Ok(_), Err(e), _) => unchanged(Err(e), kv, ttl),
            (Ok(_), Ok(_), Err(e)) => unchanged(Err(e), kv, ttl),
            (Ok(key), Ok(start), Ok(end)) => {
                if !kv.contains_key(key) {
                    unchanged(Ok(WireVal::NullString), kv, ttl)
                } else {
                    let s = kv[key];
                    if s.len() > i64::MAX {
                        unchanged(Err(msg_value_too_long()), kv, ttl)
                    } else if s.len() == 0 {
                        unchanged(Ok(WireVal::Text(Seq::empty())), kv, ttl)
                    } else {
                        let last = s.len() - 1;
                        let cs = if start < 0 {
                            0
                        } else if start > last {
                            last
                        } else {
                            start
                        };
                        let ce = if end < 0 {
                            0
                        } else if end > last {
                            last
                        } else {
                            end
                        };
                        if cs > ce {
                            unchanged(Ok(WireVal::Text(Seq::empty())), kv, ttl)
                        } else {
                            unchanged(Ok(WireVal::Text(s.subrange(cs, ce + 1))), kv, ttl)
                        }
                    }
                }
            },
        }
    }
}

/// `GETSET key value`: stores the value and replies with the old one (or
/// null).
pub open spec fn spec_cmd_getset(
    kv: Map<Seq<char>, Seq<char>>,
    ttl: Map<Seq<char>, u64>,
    args: Seq<WireVal>,
) -> CmdOutcome {
    if args.len() != 2 {
        unchanged(Err(msg_expected_args(2, args.len() as int)), kv, ttl)
    } else {
        match (spec_str_arg(args, 0), spec_str_arg(args, 1)) {
            (Err(e), _) => unchanged(Err(e), kv, ttl),
            (Ok(_), Err(e)) => unchanged(Err(e), kv, ttl),
            (Ok(key), Ok(value)) => CmdOutcome {
                reply: Ok(
                    if kv.contains_key(key) {
                        WireVal::Text(kv[key])
                    } else {
                        WireVal::NullString
                    },
                ),
                kv: kv.insert(key, value),
                ttl: ttl,
            },
        }
    }
}

/// The values for `MGET`'s keys from `i` on, in request order.
pub open spec fn spec_mget_values(
    kv: Map<Seq<char>, Seq<char>>,
    args: Seq<WireVal>,
    i: int,
) -> Result<Seq<WireVal>, Seq<char>>
    decreases args.len() - i,
{
    if i >= args.len() {
        Ok(Seq::empty())
    } else {
        match spec_str_arg(args, i) {
            Err(e) => Err(e),
            Ok(key) => {
                let v = if kv.contains_key(key) {
                    WireVal::Text(kv[key])
                } else {
                    WireVal::NullString
                };
                match spec_mget_values(kv, args, i + 1) {
                    Err(e) => Err(e),
                    Ok(vs) => Ok(seq![v] + vs),
                }
            },
        }
    }
}

/// `MGET key...`: per key the value or null, in request order.
pub open spec fn spec_cmd_mget(
    kv: Map<Seq<char>, Seq<char>>,
    ttl: Map<Seq<char>, u64>,
    args: Seq<WireVal>,
) -> CmdOutcome {
    if args.len() < 1 {
        unchanged(Err(msg_expected_at_least(1, args.len() as int)), kv, ttl)
    } else {
        match spec_mget_values(kv, args, 0) {
            Err(e) => unchanged(Err(e), kv, ttl),
            Ok(vs) => unchanged(Ok(WireVal::List(vs)), kv, ttl),
        }
    }
}

/// Stores `MSET`'s pairs from `i` on, one after the other; a coercion
/// error stops the walk and leaves the pairs before it written.
pub open spec fn spec_mset_pairs(
    kv: Map<Seq<char>, Seq<char>>,
    args: Seq<WireVal>,
    i: int,
) -> (Result<(), Seq<char>>, Map<Seq<char>, Seq<char>>)
    decreases args.len() + 2 - i,
{
    if i >= args.len() {
        (Ok(()), kv)
    } else {
        match spec_str_arg(args, i) {
            Err(e) => (Err(e), kv),
            Ok(key) => match spec_str_arg(args, i + 1) {
                Err(e) => (Err(e), kv),
                Ok(value) => spec_mset_pairs(kv.insert(key, value), args, i + 2),
            },
        }
    }
}

/// `MSET key value ...`: stores every pair.
pub open spec fn spec_cmd_mset(
    kv: Map<Seq<char>, Seq<char>>,
    ttl: Map<Seq<char>, u64>,
    args: Seq<WireVal>,
) -> CmdOutcome {
    if args.len() < 2 {
        unchanged(Err(msg_expected_at_least(2, args.len() as int)), kv, ttl)
    } else if args.len() % 2 != 0 {
        unchanged(Err(msg_expected_even(args.len() as int)), kv, ttl)
    } else {
        let (r, kv2) = spec_mset_pairs(kv, args, 0);
        match r {
            Err(e) => unchanged(Err(e), kv2, ttl),
            Ok(_) => unchanged(Ok(WireVal::Text("OK"@)), kv2, ttl),
        }
    }
}

/// Whether any key at the even positions from `i` on is already present.
pub open spec fn spec_msetnx_any_present(
    kv: Map<Seq<char>, Seq<char>>,
    args: Seq<WireVal>,
    i: int,
) -> Result<bool, Seq<char>>
    decreases args.len() + 2 - i,
{
    if i >= args.len() {
        Ok(false)
    } else {
        match spec_str_arg(args, i) {
            Err(e) => Err(e),
            Ok(key) => if kv.contains_key(key) {
                Ok(true)
            } else {
                spec_msetnx_any_present(kv, args, i + 2)
            },
        }
    }
}

/// `MSETNX key value ...`: stores every pair only when no key exists;
/// replies 1 when applied, 0 when any key was present.
pub open spec fn spec_cmd_msetnx(
    kv: Map<Seq<char>, Seq<char>>,
    ttl: Map<Seq<char>, u64>,
    args: Seq<WireVal>,
) -> CmdOutcome {
    if args.len() < 2 {
        unchanged(Err(msg_expected_at_least(2, args.len() as int)), kv, ttl)
    } else if args.len() % 2 != 0 {
        unchanged(Err(msg_expected_even(args.len() as int)), kv, ttl)
    } else {
        match spec_msetnx_any_present(kv, args, 0) {
            Err(e) => unchanged(Err(e), kv, ttl),
            Ok(true) => unchanged(Ok(WireVal::Number(0)), kv, ttl),
            Ok(false) => {
                let (r, kv2) = spec_mset_pairs(kv, args, 0);
                match r {
                    Err(e) => unchanged(Err(e), kv2, ttl),
                    Ok(_) => unchanged(Ok(WireVal::Number(1)), kv2, ttl),
                }
            },
        }
    }
}

/// `SETEX`/`PSETEX`: stores the value with an expiration relative to now,
/// in seconds or milliseconds.
pub open spec fn spec_cmd_setex(
    kv: Map<Seq<char>, Seq<char>>,
    ttl: Map<Seq<char>, u64>,
    args: Seq<WireVal>,
    now: u64,
    scale: int,
) -> CmdOutcome {
    if args.len() != 3 {
        unchanged(Err(msg_expected_args(3, args.len() as int)), kv, ttl)
    } else {
        match (spec_str_arg(args, 0), spec_exp_value(args, 1, now as int, scale), spec_str_arg(
            args,
            2,
        )) {
            (Err(e), _, _) => unchanged(Err(e), kv, ttl),
            (Ok(_), Err(e), _) => unchanged(Err(e), kv, ttl),
            (Ok(_), Ok(_), Err(e)) => unchanged(Err(e), kv, ttl),
            (Ok(_), Ok(None), Ok(_)) => unchanged(Err(msg_invalid_expire()), kv, ttl),
            (Ok(key), Ok(Some(inst)), Ok(value)) => CmdOutcome {
                reply: Ok(WireVal::Text("OK"@)),
                kv: kv.insert(key, value),
                ttl: ttl.insert(key, inst),
            },
        }
    }
}

/// The options a `SET` invocation carries.
pub struct SetOpts {
    pub nx: bool,
    pub xx: bool,
    pub keepttl: bool,
    pub get: bool,
    pub expiration: Option<u64>,
}

/// Reads `SET`'s option words from `i` on. A second expiration clause, or
/// a word that is neither an option nor a clause, is rejected.
pub open spec fn spec_set_opts(args: Seq<WireVal>, i: int, now: u64, acc: SetOpts) -> Result<
    SetOpts,
    Seq<char>,
>
    decreases args.len() + 2 - i,
{
    if i >= args.len() {
        Ok(acc)
    } else {
        match spec_str_arg(args, i) {
            Err(e) => Err(e),
            Ok(s) => {
                let u = spec_upper(s);
                if u == "NX"@ {
                    spec_set_opts(
                        args,
                        i + 1,
                        now,
                        SetOpts {
                            nx: true,
                            xx: acc.xx,
                            keepttl: acc.keepttl,
                            get: acc.get,
                            expiration: acc.expiration,
                        },
                    )
                } else if u == "XX"@ {
                    spec_set_opts(
                        args,
                        i + 1,
                        now,
                        SetOpts {
                            nx: acc.nx,
                            xx: true,
                            keepttl: acc.keepttl,
                            get: acc.get,
                            expiration: acc.expiration,
                        },
                    )
                } else if u == "KEEPTTL"@ {
                    spec_set_opts(
                        args,
                        i + 1,
                        now,
                        SetOpts {
                            nx: acc.nx,
                            xx: acc.xx,
                            keepttl: true,
                            get: acc.get,
                            expiration: acc.expiration,
                        },
                    )
                } else if u == "GET"@ {
                    spec_set_opts(
                        args,
                        i + 1,
                        now,
                        SetOpts {
                            nx: acc.nx,
                            xx: acc.xx,
                            keepttl: acc.keepttl,
                            get: true,
                            expiration: acc.expiration,
                        },
                    )
                } else {
                    match spec_expiration(args, i, now) {
                        Err(e) => Err(e),
                        Ok(None) => Err(msg_unexpected_param(args[i])),
                        Ok(Some(inst)) => if acc.expiration is Some {
                            Err(msg_multiple_ttl())
                        } else {
                            spec_set_opts(
                                args,
                                i + 2,
                                now,
                                SetOpts {
                                    nx: acc.nx,
                                    xx: acc.xx,
                                    keepttl: acc.keepttl,
                                    get: acc.get,
                                    expiration: Some(inst),
                                },
                            )
                        },
                    }
                }
            },
        }
    }
}

/// `SET key value [NX|XX] [GET] [expiry-clause|KEEPTTL]`. An expiration
/// clause sets the new instant, `KEEPTTL` leaves the old one, and a bare
/// store clears it; the expiration side runs even when `NX`/`XX` abort the
/// write. With `GET` the reply is the prior value, read before the write,
/// even on an aborted write.
pub open spec fn spec_cmd_set(
    kv: Map<Seq<char>, Seq<char>>,
    ttl: Map<Seq<char>, u64>,
    args: Seq<WireVal>,
    now: u64,
) -> CmdOutcome {
    if args.len() < 2 {
        unchanged(Err(msg_expected_at_least(2, args.len() as int)), kv, ttl)
    } else {
        match (spec_str_arg(args, 0), spec_str_arg(args, 1)) {
            (Err(e), _) => unchanged(Err(e), kv, ttl),
            (Ok(_), Err(e)) => unchanged(Err(e), kv, ttl),
            (Ok(key), Ok(value)) => {
                let acc = SetOpts { nx: false, xx: false, keepttl: false, get: false, expiration: None };
                match spec_set_opts(args, 2, now, acc) {
                    Err(e) => unchanged(Err(e), kv, ttl),
                    Ok(o) => {
                        if o.nx && o.xx {
                            unchanged(Err(msg_nx_and_xx()), kv, ttl)
                        } else if o.keepttl && o.expiration is Some {
                            unchanged(Err(msg_multiple_ttl()), kv, ttl)
                        } else {
                            let ttl2 = match o.expiration {
                                Some(inst) => ttl.insert(key, inst),
                                None => if o.keepttl {
                                    ttl
                                } else {
                                    ttl.remove(key)
                                },
                            };
                            let prior = if kv.contains_key(key) {
                                Some(kv[key])
                            } else {
                                None
                            };
                            let prior_reply = match prior {
                                Some(p) => WireVal::Text(p),
                                None => WireVal::NullString,
                            };
                            if o.nx && prior is Some {
                                CmdOutcome {
                                    reply: Ok(
                                        if o.get {
                                            prior_reply
                                        } else {
                                            WireVal::NullString
                                        },
                                    ),
                                    kv: kv,
                                    ttl: ttl2,
                                }
                            } else if o.xx && prior is None {
                                CmdOutcome { reply: Ok(WireVal::NullString), kv: kv, ttl: ttl2 }
                            } else {
                                CmdOutcome {
                                    reply: Ok(
                                        if o.get {
                                            prior_reply
                                        } else {
                                            WireVal::Text("OK"@)
                                        },
                                    ),
                                    kv: kv.insert(key, value),
                                    ttl: ttl2,
                                }
                            }
                        }
                    },
                }
            },
        }
    }
}

/// `SETNX key value`: stores only an absent key; replies 1 when stored.
pub open spec fn spec_cmd_setnx(
    kv: Map<Seq<char>, Seq<char>>,
    ttl: Map<Seq<char>, u64>,
    args: Seq<WireVal>,
) -> CmdOutcome {
    if args.len() != 2 {
        unchanged(Err(msg_expected_args(2, args.len() as int)), kv, ttl)
    } else {
        match (spec_str_arg(args, 0), spec_str_arg(args, 1)) {
            (Err(e), _) => unchanged(Err(e), kv, ttl),
            (Ok(_), Err(e)) => unchanged(Err(e), kv, ttl),
            (Ok(key), Ok(value)) => if kv.contains_key(key) {
                unchanged(Ok(WireVal::Number(0)), kv, ttl)
            } else {
                CmdOutcome {
                    reply: Ok(WireVal::Number(1)),
                    kv: kv.insert(key, value),
                    ttl: ttl,
                }
            },
        }
    }
}

/// A run of spaces.
pub open spec fn spec_spaces(n: int) -> Seq<char> {
    Seq::new(n as nat, |i: int| ' ')
}

/// `SETRANGE key offset value`: the stored text up to `offset`, padded
/// with spaces when shorter, then the value; replies with the new length.
pub open spec fn spec_cmd_setrange(
    kv: Map<Seq<char>, Seq<char>>,
    ttl: Map<Seq<char>, u64>,
    args: Seq<WireVal>,
) -> CmdOutcome {
    if args.len() != 3 {
        unchanged(Err(msg_expected_args(3, args.len() as int)), kv, ttl)
    } else {
        match (spec_str_arg(args, 0), spec_int_arg(args, 1), spec_str_arg(args, 2)) {
            (Err(e), _, _) => unchanged(Err(e), kv, ttl),
            (Ok(_), Err(e), _) => unchanged(Err(e), kv, ttl),
            (Ok(_), Ok(_), Err(e)) => unchanged(Err(e), kv, ttl),
            (Ok(key), Ok(offset), Ok(value)) => {
                if offset < 0 {
                    unchanged(Err(msg_offset_out_of_range()), kv, ttl)
                } else {
                    let cur = if kv.contains_key(key) {
                        kv[key]
                    } else {
                        Seq::empty()
                    };
                    let head = if offset > cur.len() {
                        cur + spec_spaces(offset - cur.len())
                    } else {
                        cur.subrange(0, offset)
                    };
                    let nv = head + value;
                    if nv.len() > i64::MAX || nv.len() > usize::MAX {
                        unchanged(Err(msg_value_too_long()), kv, ttl)
                    } else {
                        CmdOutcome {
                            reply: Ok(WireVal::Number(nv.len() as int)),
                            kv: kv.insert(key, nv),
                            ttl: ttl,
                        }
                    }
                }
            },
        }
    }
}

/// `STRLEN key`: the stored text's length, or 0 for an absent key.
pub open spec fn spec_cmd_strlen(
    kv: Map<Seq<char>, Seq<char>>,
    ttl: Map<Seq<char>, u64>,
    args: Seq<WireVal>,
) -> CmdOutcome {
    if args.len() != 1 {
        unchanged(Err(msg_expected_args(1, args.len() as int)), kv, ttl)
    } else {
        match spec_str_arg(args, 0) {
            Err(e) => unchanged(Err(e), kv, ttl),
            Ok(key) => if !kv.contains_key(key) {
                unchanged(Ok(WireVal::Number(0)), kv, ttl)
            } else if kv[key].len() > i64::MAX {
                unchanged(Err(msg_value_too_long()), kv, ttl)
            } else {
                unchanged(Ok(WireVal::Number(kv[key].len() as int)), kv, ttl)
            },
        }
    }
}

// ------------------------------------------------------------------
// Handlers
// ------------------------------------------------------------------

/// The value a handler result denotes.
pub open spec fn res_view(r: Result<RedisType, String>) -> Result<WireVal, Seq<char>> {
    match r {
        Ok(v) => Ok(rt_view(v)),
        Err(m) => Err(m@),
    }
}

/// The outcome a handler must realise on the store it was given.
pub open spec fn realises(
    store_pre: Store,
    store_post: Store,
    r: Result<RedisType, String>,
    o: CmdOutcome,
) -> bool {
    &&& res_view(r) == o.reply
    &&& store_post.kv() == o.kv
    &&& store_post.ttl_map() == o.ttl
}

fn cmd_command(store: &mut Store, args: &Vec<RedisType>) -> (r: Result<RedisType, String>)
    ensures
        realises(
            *old(store),
            *final(store),
            r,
            spec_cmd_command(old(store).kv(), old(store).ttl_map(), rts_view(args@)),
        ),
{
    proof {
        lemma_rts_view(args@);
    }
    if args.len() != 1 {
        return Err(err_expected_args(1, args.len()));
    }
    match is_kw(args, 0, "DOCS") {
        Err(m) => Err(m),
        Ok(false) => Err("Only DOCS is supported".to_owned()),
        Ok(true) => {
            proof {
                assert(rts_view(Seq::<RedisType>::empty()) =~= Seq::<WireVal>::empty());
            }
            Ok(RedisType::Array { value: Vec::new() })
        },
    }
}

fn cmd_append(store: &mut Store, args: &Vec<RedisType>) -> (r: Result<RedisType, String>)
    ensures
        realises(
            *old(store),
            *final(store),
            r,
            spec_cmd_append(old(store).kv(), old(store).ttl_map(), rts_view(args@)),
        ),
{
    proof {
        lemma_rts_view(args@);
    }
    if args.len() != 2 {
        return Err(err_expected_args(2, args.len()));
    }
    let key = match get_string_arg(args, 0) {
        Ok(s) => s,
        Err(m) => {
            return Err(m);
        },
    };
    let value = match get_string_arg(args, 1) {
        Ok(s) => s,
        Err(m) => {
            return Err(m);
        },
    };
    let mut nv = match store.get(&key) {
        Some(cur) => {
            let mut c = cur;
            c.append(value.as_str());
            c
        },
        None => value,
    };
    let n: usize = nv.as_str().unicode_len();
    if (n as u64) > (i64::MAX as u64) {
        return Err("Value is too long".to_owned());
    }
    store.set(key, nv);
    Ok(RedisType::Integer { value: n as i64 })
}

/// The shared `INCR`/`DECR` step with checked 64-bit arithmetic; `negate`
/// applies the delta downward.
fn incr_by(store: &mut Store, key: String, d: i64, negate: bool) -> (r: Result<RedisType, String>)
    ensures
        realises(
            *old(store),
            *final(store),
            r,
            spec_incr_by(
                old(store).kv(),
                old(store).ttl_map(),
                key@,
                if negate {
                    -(d as int)
                } else {
                    d as int
                },
            ),
        ),
{
    let v: i64 = match store.get(&key) {
        Some(c) => match parse_i64(c.as_str()) {
            Some(v) => v,
            None => {
                return Err("Value is not an integer or out of range".to_owned());
            },
        },
        None => 0,
    };
    let nv: i64 = if negate {
        if (d > 0 && v < i64::MIN + d) || (d < 0 && v > i64::MAX + d) {
            return Err("Value is not an integer or out of range".to_owned());
        }
        v - d
    } else {
        if (d > 0 && v > i64::MAX - d) || (d < 0 && v < i64::MIN - d) {
            return Err("Value is not an integer or out of range".to_owned());
        }
        v + d
    };
    let text = fmt_i64(nv);
    store.set(key, text);
    Ok(RedisType::Integer { value: nv })
}

/// `INCR`/`DECR`/`INCRBY`/`DECRBY`, sharing [`incr_by`].
fn cmd_incr(store: &mut Store, args: &Vec<RedisType>, arity: usize, negate: bool) -> (r: Result<
    RedisType,
    String,
>)
    requires
        arity == 1 || arity == 2,
    ensures
        realises(
            *old(store),
            *final(store),
            r,
            spec_cmd_incr(
                old(store).kv(),
                old(store).ttl_map(),
                rts_view(args@),
                arity as int,
                negate,
            ),
        ),
{
    proof {
        lemma_rts_view(args@);
    }
    if args.len() != arity {
        return Err(err_expected_args(arity, args.len()));
    }
    let key = match get_string_arg(args, 0) {
        Ok(s) => s,
        Err(m) => {
            return Err(m);
        },
    };
    let d: i64 = if arity == 1 {
        1
    } else {
        match get_integer_arg(args, 1) {
            Ok(v) => v,
            Err(m) => {
                return Err(m);
            },
        }
    };
    incr_by(store, key, d, negate)
}

fn cmd_get(store: &mut Store, args: &Vec<RedisType>) -> (r: Result<RedisType, String>)
    ensures
        realises(
            *old(store),
            *final(store),
            r,
            spec_cmd_get(old(store).kv(), old(store).ttl_map(), rts_view(args@)),
        ),
{
    proof {
        lemma_rts_view(args@);
    }
    if args.len() != 1 {
        return Err(err_expected_args(1, args.len()));
    }
    let key = match get_string_arg(args, 0) {
        Ok(s) => s,
        Err(m) => {
            return Err(m);
        },
    };
    match store.get(&key) {
        Some(v) => Ok(RedisType::String { value: v }),
        None => Ok(RedisType::NullString),
    }
}

fn cmd_getdel(store: &mut Store, args: &Vec<RedisType>) -> (r: Result<RedisType, String>)
    ensures
        realises(
            *old(store),
            *final(store),
            r,
            spec_cmd_getdel(old(store).kv(), old(store).ttl_map(), rts_view(args@)),
        ),
{
    proof {
        lemma_rts_view(args@);
    }
    if args.len() != 1 {
        return Err(err_expected_args(1, args.len()));
    }
    let key = match get_string_arg(args, 0) {
        Ok(s) => s,
        Err(m) => {
            return Err(m);
        },
    };
    match store.delete(&key) {
        Some(v) => Ok(RedisType::String { value: v }),
        None => Ok(RedisType::NullString),
    }
}

fn cmd_getset(store: &mut Store, args: &Vec<RedisType>) -> (r: Result<RedisType, String>)
    ensures
        realises(
            *old(store),
            *final(store),
            r,
            spec_cmd_getset(old(store).kv(), old(store).ttl_map(), rts_view(args@)),
        ),
{
    proof {
        lemma_rts_view(args@);
    }
    if args.len() != 2 {
        return Err(err_expected_args(2, args.len()));
    }
    let key = match get_string_arg(args, 0) {
        Ok(s) => s,
        Err(m) => {
            return Err(m);
        },
    };
    let value = match get_string_arg(args, 1) {
        Ok(s) => s,
        Err(m) => {
            return Err(m);
        },
    };
    let prior = store.get(&key);
    store.set(key, value);
    match prior {
        Some(v) => Ok(RedisType::String { value: v }),
        None => Ok(RedisType::NullString),
    }
}

fn cmd_setnx(store: &mut Store, args: &Vec<RedisType>) -> (r: Result<RedisType, String>)
    ensures
        realises(
            *old(store),
            *final(store),
            r,
            spec_cmd_setnx(old(store).kv(), old(store).ttl_map(), rts_view(args@)),
        ),
{
    proof {
        lemma_rts_view(args@);
    }
    if args.len() != 2 {
        return Err(err_expected_args(2, args.len()));
    }
    let key = match get_string_arg(args, 0) {
        Ok(s) => s,
        Err(m) => {
            return Err(m);
        },
    };
    let value = match get_string_arg(args, 1) {
        Ok(s) => s,
        Err(m) => {
            return Err(m);
        },
    };
    if store.contains(&key) {
        Ok(RedisType::Integer { value: 0 })
    } else {
        store.set(key, value);
        Ok(RedisType::Integer { value: 1 })
    }
}

fn cmd_strlen(store: &mut Store, args: &Vec<RedisType>) -> (r: Result<RedisType, String>)
    ensures
        realises(
            *old(store),
            *final(store),
            r,
            spec_cmd_strlen(old(store).kv(), old(store).ttl_map(), rts_view(args@)),
        ),
{
    proof {
        lemma_rts_view(args@);
    }
    if args.len() != 1 {
        return Err(err_expected_args(1, args.len()));
    }
    let key = match get_string_arg(args, 0) {
        Ok(s) => s,
        Err(m) => {
            return Err(m);
        },
    };
    match store.get(&key) {
        None => Ok(RedisType::Integer { value: 0 }),
        Some(v) => {
            let n: usize = v.as_str().unicode_len();
            if (n as u64) > (i64::MAX as u64) {
                return Err("Value is too long".to_owned());
            }
            Ok(RedisType::Integer { value: n as i64 })
        },
    }
}

fn cmd_getex(store: &mut Store, args: &Vec<RedisType>, now: u64) -> (r: Result<RedisType, String>)
    ensures
        realises(
            *old(store),
            *final(store),
            r,
            spec_cmd_getex(old(store).kv(), old(store).ttl_map(), rts_view(args@), now),
        ),
{
    proof {
        lemma_rts_view(args@);
    }
    if args.len() < 1 {
        return Err(err_expected_at_least(1, args.len()));
    }
    let key = match get_string_arg(args, 0) {
        Ok(s) => s,
        Err(m) => {
            return Err(m);
        },
    };
    let prior = store.get(&key);
    if args.len() > 1 {
        match is_kw(args, 1, "PERSIST") {
            Err(m) => {
                return Err(m);
            },
            Ok(true) => {
                store.clear_expiration(&key);
            },
            Ok(false) => {
                match get_expiration(args, 1, now) {
                    Err(m) => {
                        return Err(m);
                    },
                    Ok(None) => {
                        return Err("Invalid argument".to_owned());
                    },
                    Ok(Some(inst)) => {
                        store.set_expiration(&key, inst);
                    },
                }
            },
        }
    }
    match prior {
        Some(v) => Ok(RedisType::String { value: v }),
        None => Ok(RedisType::NullString),
    }
}

fn cmd_getrange(store: &mut Store, args: &Vec<RedisType>) -> (r: Result<RedisType, String>)
    ensures
        realises(
            *old(store),
            *final(store),
            r,
            spec_cmd_getrange(old(store).kv(), old(store).ttl_map(), rts_view(args@)),
        ),
{
    proof {
        lemma_rts_view(args@);
    }
    if args.len() != 3 {
        return Err(err_expected_args(3, args.len()));
    }
    let key = match get_string_arg(args, 0) {
        Ok(s) => s,
        Err(m) => {
            return Err(m);
        },
    };
    let start = match get_integer_arg(args, 1) {
        Ok(v) => v,
        Err(m) => {
            return Err(m);
        },
    };
    let end = match get_integer_arg(args, 2) {
        Ok(v) => v,
        Err(m) => {
            return Err(m);
        },
    };
    let s = match store.get(&key) {
        Some(s) => s,
        None => {
            return Ok(RedisType::NullString);
        },
    };
    let n: usize = s.as_str().unicode_len();
    if (n as u64) > (i64::MAX as u64) {
        return Err("Value is too long".to_owned());
    }
    if n == 0 {
        return Ok(RedisType::String { value: String::new() });
    }
    let last: i64 = (n as i64) - 1;
    let cs: i64 = if start < 0 {
        0
    } else if start > last {
        last
    } else {
        start
    };
    let ce: i64 = if end < 0 {
        0
    } else if end > last {
        last
    } else {
        end
    };
    if cs > ce {
        Ok(RedisType::String { value: String::new() })
    } else {
        let sub = s.as_str().substring_char(cs as usize, (ce + 1) as usize);
        Ok(RedisType::String { value: sub.to_owned() })
    }
}

fn cmd_mget(store: &mut Store, args: &Vec<RedisType>) -> (r: Result<RedisType, String>)
    ensures
        realises(
            *old(store),
            *final(store),
            r,
            spec_cmd_mget(old(store).kv(), old(store).ttl_map(), rts_view(args@)),
        ),
{
    proof {
        lemma_rts_view(args@);
    }
    if args.len() < 1 {
        return Err(err_expected_at_least(1, args.len()));
    }
    let ghost args_v = rts_view(args@);
    let ghost kv0 = store.kv();
    let mut values: Vec<RedisType> = Vec::new();
    let mut i: usize = 0;
    proof {
        let r0 = spec_mget_values(kv0, args_v, 0);
        if r0 is Ok {
            assert(Seq::<WireVal>::empty() + (r0->Ok_0) =~= r0->Ok_0);
        }
        assert(rts_view(Seq::<RedisType>::empty()) =~= Seq::<WireVal>::empty());
    }
    #[verifier::loop_isolation(false)]
    while i < args.len()
        invariant
            0 <= i <= args.len(),
            spec_mget_values(kv0, args_v, 0) == (match spec_mget_values(kv0, args_v, i as int) {
                Ok(vs) => Ok::<Seq<WireVal>, Seq<char>>(rts_view(values@) + vs),
                Err(e) => Err::<Seq<WireVal>, Seq<char>>(e),
            }),
        decreases args.len() - i,
    {
        let key = match get_string_arg(args, i) {
            Ok(s) => s,
            Err(m) => {
                return Err(m);
            },
        };
        let ghost values0 = values@;
        let item = match store.get(&key) {
            Some(v) => RedisType::String { value: v },
            None => RedisType::NullString,
        };
        proof {
            let tail = spec_mget_values(kv0, args_v, i + 1);
            crate::wire::lemma_rts_view_push(values0, item);
            if tail is Ok {
                let vs = tail->Ok_0;
                assert(rts_view(values0.push(item)) + vs =~= rts_view(values0) + (seq![
                    rt_view(item),
                ] + vs));
            }
        }
        values.push(item);
        i += 1;
    }
    proof {
        assert(rts_view(values@) + Seq::<WireVal>::empty() =~= rts_view(values@));
    }
    Ok(RedisType::Array { value: values })
}

fn cmd_mset_pairs(store: &mut Store, args: &Vec<RedisType>) -> (r: Result<(), String>)
    requires
        rts_view(args@).len() % 2 == 0,
    ensures
        final(store).ttl_map() == old(store).ttl_map(),
        ({
            let o = spec_mset_pairs(old(store).kv(), rts_view(args@), 0);
            &&& final(store).kv() == o.1
            &&& match r {
                Ok(_) => o.0 == Ok::<(), Seq<char>>(()),
                Err(m) => o.0 == Err::<(), Seq<char>>(m@),
            }
        }),
{
    proof {
        lemma_rts_view(args@);
    }
    let ghost args_v = rts_view(args@);
    let ghost kv0 = store.kv();
    let mut i: usize = 0;
    #[verifier::loop_isolation(false)]
    while i < args.len()
        invariant
            0 <= i <= args.len(),
            i % 2 == 0,
            store.ttl_map() == old(store).ttl_map(),
            spec_mset_pairs(kv0, args_v, 0) == spec_mset_pairs(store.kv(), args_v, i as int),
        decreases args.len() - i,
    {
        let key = match get_string_arg(args, i) {
            Ok(s) => s,
            Err(m) => {
                return Err(m);
            },
        };
        let value = match get_string_arg(args, i + 1) {
            Ok(s) => s,
            Err(m) => {
                return Err(m);
            },
        };
        proof {
            assert(i + 1 < args.len());
        }
        store.set(key, value);
        i += 2;
    }
    Ok(())
}

fn cmd_mset(store: &mut Store, args: &Vec<RedisType>) -> (r: Result<RedisType, String>)
    ensures
        realises(
            *old(store),
            *final(store),
            r,
            spec_cmd_mset(old(store).kv(), old(store).ttl_map(), rts_view(args@)),
        ),
{
    proof {
        lemma_rts_view(args@);
    }
    if args.len() < 2 {
        return Err(err_expected_at_least(2, args.len()));
    }
    if args.len() % 2 != 0 {
        return Err(err_expected_even(args.len()));
    }
    match cmd_mset_pairs(store, args) {
        Ok(_) => Ok(RedisType::String { value: "OK".to_owned() }),
        Err(m) => Err(m),
    }
}

fn cmd_msetnx(store: &mut Store, args: &Vec<RedisType>) -> (r: Result<RedisType, String>)
    ensures
        realises(
            *old(store),
            *final(store),
            r,
            spec_cmd_msetnx(old(store).kv(), old(store).ttl_map(), rts_view(args@)),
        ),
{
    proof {
        lemma_rts_view(args@);
    }
    if args.len() < 2 {
        return Err(err_expected_at_least(2, args.len()));
    }
    if args.len() % 2 != 0 {
        return Err(err_expected_even(args.len()));
    }
    let ghost args_v = rts_view(args@);
    let ghost kv0 = store.kv();
    let mut i: usize = 0;
    #[verifier::loop_isolation(false)]
    while i < args.len()
        invariant
            0 <= i <= args.len(),
            i % 2 == 0,
            spec_msetnx_any_present(kv0, args_v, 0) == spec_msetnx_any_present(
                kv0,
                args_v,
                i as int,
            ),
        decreases args.len() - i,
    {
        let key = match get_string_arg(args, i) {
            Ok(s) => s,
            Err(m) => {
                return Err(m);
            },
        };
        if store.contains(&key) {
            return Ok(RedisType::Integer { value: 0 });
        }
        i += 2;
    }
    match cmd_mset_pairs(store, args) {
        Ok(_) => Ok(RedisType::Integer { value: 1 }),
        Err(m) => Err(m),
    }
}

/// `SETEX`/`PSETEX`, with `scale` milliseconds per operand unit.
fn cmd_setex(store: &mut Store, args: &Vec<RedisType>, now: u64, scale: u64) -> (r: Result<
    RedisType,
    String,
>)
    requires
        scale == 1 || scale == 1000,
    ensures
        realises(
            *old(store),
            *final(store),
            r,
            spec_cmd_setex(
                old(store).kv(),
                old(store).ttl_map(),
                rts_view(args@),
                now,
                scale as int,
            ),
        ),
{
    proof {
        lemma_rts_view(args@);
    }
    if args.len() != 3 {
        return Err(err_expected_args(3, args.len()));
    }
    let key = match get_string_arg(args, 0) {
        Ok(s) => s,
        Err(m) => {
            return Err(m);
        },
    };
    let inst = match exp_value(args, 1, now, scale) {
        Ok(Some(v)) => v,
        Ok(None) => {
            return Err("Invalid expire time".to_owned());
        },
        Err(m) => {
            return Err(m);
        },
    };
    let value = match get_string_arg(args, 2) {
        Ok(s) => s,
        Err(m) => {
            return Err(m);
        },
    };
    store.set_expiration(&key, inst);
    store.set(key, value);
    Ok(RedisType::String { value: "OK".to_owned() })
}

fn cmd_set(store: &mut Store, args: &Vec<RedisType>, now: u64) -> (r: Result<RedisType, String>)
    ensures
        realises(
            *old(store),
            *final(store),
            r,
            spec_cmd_set(old(store).kv(), old(store).ttl_map(), rts_view(args@), now),
        ),
{
    proof {
        lemma_rts_view(args@);
    }
    if args.len() < 2 {
        return Err(err_expected_at_least(2, args.len()));
    }
    let key = match get_string_arg(args, 0) {
        Ok(s) => s,
        Err(m) => {
            return Err(m);
        },
    };
    let value = match get_string_arg(args, 1) {
        Ok(s) => s,
        Err(m) => {
            return Err(m);
        },
    };
    let ghost args_v = rts_view(args@);
    let ghost init = SetOpts { nx: false, xx: false, keepttl: false, get: false, expiration: None };
    let mut nx = false;
    let mut xx = false;
    let mut keepttl = false;
    let mut get = false;
    let mut expiration: Option<u64> = None;
    let mut i: usize = 2;
    #[verifier::loop_isolation(false)]
    while i < args.len()
        invariant
            2 <= i <= args.len(),
            spec_set_opts(args_v, 2, now, init) == spec_set_opts(
                args_v,
                i as int,
                now,
                (SetOpts {
                    nx: nx,
                    xx: xx,
                    keepttl: keepttl,
                    get: get,
                    expiration: expiration,
                }),
            ),
        decreases args.len() - i,
    {
        let s = match get_string_arg(args, i) {
            Ok(s) => s,
            Err(m) => {
                return Err(m);
            },
        };
        let up = to_upper(s.as_str());
        if str_eq(up.as_str(), "NX") {
            nx = true;
            i += 1;
        } else if str_eq(up.as_str(), "XX") {
            xx = true;
            i += 1;
        } else if str_eq(up.as_str(), "KEEPTTL") {
            keepttl = true;
            i += 1;
        } else if str_eq(up.as_str(), "GET") {
            get = true;
            i += 1;
        } else {
            match get_expiration(args, i, now) {
                Err(m) => {
                    return Err(m);
                },
                Ok(None) => {
                    return Err(err_unexpected_param(&args[i]));
                },
                Ok(Some(inst)) => {
                    if expiration.is_some() {
                        return Err(
                            "SET: Cannot set more than one of EX/PX/EXAT/PXAT/KEEPTTL".to_owned(),
                        );
                    }
                    proof {
                        assert(i + 1 < args.len());
                    }
                    expiration = Some(inst);
                    i += 2;
                },
            }
        }
    }
    if nx && xx {
        return Err("SET: Cannot set both NX and XX".to_owned());
    }
    if keepttl && expiration.is_some() {
        return Err("SET: Cannot set more than one of EX/PX/EXAT/PXAT/KEEPTTL".to_owned());
    }
    match expiration {
        Some(inst) => {
            store.set_expiration(&key, inst);
        },
        None => {
            if !keepttl {
                store.clear_expiration(&key);
            }
        },
    }
    let prior = store.get(&key);
    if nx && prior.is_some() {
        if get {
            match prior {
                Some(p) => {
                    return Ok(RedisType::String { value: p });
                },
                None => {
                    return Ok(RedisType::NullString);
                },
            }
        }
        return Ok(RedisType::NullString);
    }
    if xx && prior.is_none() {
        return Ok(RedisType::NullString);
    }
    store.set(key, value);
    if get {
        match prior {
            Some(p) => Ok(RedisType::String { value: p }),
            None => Ok(RedisType::NullString),
        }
    } else {
        Ok(RedisType::String { value: "OK".to_owned() })
    }
}

fn cmd_setrange(store: &mut Store, args: &Vec<RedisType>) -> (r: Result<RedisType, String>)
    ensures
        realises(
            *old(store),
            *final(store),
            r,
            spec_cmd_setrange(old(store).kv(), old(store).ttl_map(), rts_view(args@)),
        ),
{
    proof {
        lemma_rts_view(args@);
    }
    if args.len() != 3 {
        return Err(err_expected_args(3, args.len()));
    }
    let key = match get_string_arg(args, 0) {
        Ok(s) => s,
        Err(m) => {
            return Err(m);
        },
    };
    let offset = match get_integer_arg(args, 1) {
        Ok(v) => v,
        Err(m) => {
            return Err(m);
        },
    };
    let value = match get_string_arg(args, 2) {
        Ok(s) => s,
        Err(m) => {
            return Err(m);
        },
    };
    if offset < 0 {
        return Err("Offset is out of range".to_owned());
    }
    let cur: String = match store.get(&key) {
        Some(c) => c,
        None => String::new(),
    };
    let vl: u64 = value.as_str().unicode_len() as u64;
    let ol: u64 = offset as u64;
    proof {
        let kv0 = old(store).kv();
        let curs = if kv0.contains_key(key@) {
            kv0[key@]
        } else {
            Seq::<char>::empty()
        };
        let head_s = if offset > curs.len() {
            curs + spec_spaces(offset - curs.len())
        } else {
            curs.subrange(0, offset as int)
        };
        assert(head_s.len() == offset as int);
        assert((head_s + value@).len() == offset + value@.len());
    }
    if ol > u64::MAX - vl {
        return Err("Value is too long".to_owned());
    }
    let total: u64 = ol + vl;
    if total > (i64::MAX as u64) || total > (usize::MAX as u64) {
        return Err("Value is too long".to_owned());
    }
    let off_us: usize = offset as usize;
    let cn: usize = cur.as_str().unicode_len();
    let mut head: String;
    if off_us > cn {
        head = cur;
        proof {
            assert(head@ + spec_spaces(0) =~= head@);
        }
        let mut pad: usize = off_us - cn;
        let ghost cur0 = head@;
        #[verifier::loop_isolation(false)]
        while pad > 0
            invariant
                head@ =~= cur0 + spec_spaces(off_us - cn - pad),
                pad <= off_us - cn,
            decreases pad,
        {
            crate::strutil::push_char(&mut head, ' ');
            proof {
                assert(head@ =~= cur0 + spec_spaces(off_us - cn - (pad - 1)));
            }
            pad -= 1;
        }
    } else {
        let sub = cur.as_str().substring_char(0, off_us);
        head = sub.to_owned();
    }
    head.append(value.as_str());
    store.set(key, head);
    Ok(RedisType::Integer { value: total as i64 })
}

// ------------------------------------------------------------------
// The command table
// ------------------------------------------------------------------

/// The commands the engine implements, one handler each.
#[derive(Copy, Clone, Debug, PartialEq, Eq, Structural)]
pub enum Cmd {
    Command,
    Append,
    Decr,
    DecrBy,
    Get,
    GetDel,
    GetEx,
    GetRange,
    GetSet,
    Incr,
    IncrBy,
    Mget,
    Mset,
    MsetNx,
    PSetEx,
    SetCmd,
    SetEx,
    SetNx,
    SetRange,
    StrLen,
}

/// The table: each upper-case name against its command.
pub open spec fn spec_lookup(name: Seq<char>) -> Option<Cmd> {
    if name == "COMMAND"@ {
        Some(Cmd::Command)
    } else if name == "APPEND"@ {
        Some(Cmd::Append)
    } else if name == "DECR"@ {
        Some(Cmd::Decr)
    } else if name == "DECRBY"@ {
        Some(Cmd::DecrBy)
    } else if name == "GET"@ {
        Some(Cmd::Get)
    } else if name == "GETDEL"@ {
        Some(Cmd::GetDel)
    } else if name == "GETEX"@ {
        Some(Cmd::GetEx)
    } else if name == "GETRANGE"@ {
        Some(Cmd::GetRange)
    } else if name == "GETSET"@ {
        Some(Cmd::GetSet)
    } else if name == "INCR"@ {
        Some(Cmd::Incr)
    } else if name == "INCRBY"@ {
        Some(Cmd::IncrBy)
    } else if name == "MGET"@ {
        Some(Cmd::Mget)
    } else if name == "MSET"@ {
        Some(Cmd::Mset)
    } else if name == "MSETNX"@ {
        Some(Cmd::MsetNx)
    } else if name == "PSETEX"@ {
        Some(Cmd::PSetEx)
    } else if name == "SET"@ {
        Some(Cmd::SetCmd)
    } else if name == "SETEX"@ {
        Some(Cmd::SetEx)
    } else if name == "SETNX"@ {
        Some(Cmd::SetNx)
    } else if name == "SETRANGE"@ {
        Some(Cmd::SetRange)
    } else if name == "STRLEN"@ {
        Some(Cmd::StrLen)
    } else {
        None
    }
}

/// Looks a command up by its already upper-cased name.
pub fn lookup(name: &String) -> (r: Option<Cmd>)
    ensures
        r == spec_lookup(name@),
{
    let n = name.as_str();
    if str_eq(n, "COMMAND") {
        Some(Cmd::Command)
    } else if str_eq(n, "APPEND") {
        Some(Cmd::Append)
    } else if str_eq(n, "DECR") {
        Some(Cmd::Decr)
    } else if str_eq(n, "DECRBY") {
        Some(Cmd::DecrBy)
    } else if str_eq(n, "GET") {
        Some(Cmd::Get)
    } else if str_eq(n, "GETDEL") {
        Some(Cmd::GetDel)
    } else if str_eq(n, "GETEX") {
        Some(Cmd::GetEx)
    } else if str_eq(n, "GETRANGE") {
        Some(Cmd::GetRange)
    } else if str_eq(n, "GETSET") {
        Some(Cmd::GetSet)
    } else if str_eq(n, "INCR") {
        Some(Cmd::Incr)
    } else if str_eq(n, "INCRBY") {
        Some(Cmd::IncrBy)
    } else if str_eq(n, "MGET") {
        Some(Cmd::Mget)
    } else if str_eq(n, "MSET") {
        Some(Cmd::Mset)
    } else if str_eq(n, "MSETNX") {
        Some(Cmd::MsetNx)
    } else if str_eq(n, "PSETEX") {
        Some(Cmd::PSetEx)
    } else if str_eq(n, "SET") {
        Some(Cmd::SetCmd)
    } else if str_eq(n, "SETEX") {
        Some(Cmd::SetEx)
    } else if str_eq(n, "SETNX") {
        Some(Cmd::SetNx)
    } else if str_eq(n, "SETRANGE") {
        Some(Cmd::SetRange)
    } else if str_eq(n, "STRLEN") {
        Some(Cmd::StrLen)
    } else {
        None
    }
}

/// The transition of one command.
pub open spec fn spec_execute(
    cmd: Cmd,
    kv: Map<Seq<char>, Seq<char>>,
    ttl: Map<Seq<char>, u64>,
    args: Seq<WireVal>,
    now: u64,
) -> CmdOutcome {
    match cmd {
        Cmd::Command => spec_cmd_command(kv, ttl, args),
        Cmd::Append => spec_cmd_append(kv, ttl, args),
        Cmd::Decr => spec_cmd_incr(kv, ttl, args, 1, true),
        Cmd::DecrBy => spec_cmd_incr(kv, ttl, args, 2, true),
        Cmd::Get => spec_cmd_get(kv, ttl, args),
        Cmd::GetDel => spec_cmd_getdel(kv, ttl, args),
        Cmd::GetEx => spec_cmd_getex(kv, ttl, args, now),
        Cmd::GetRange => spec_cmd_getrange(kv, ttl, args),
        Cmd::GetSet => spec_cmd_getset(kv, ttl, args),
        Cmd::Incr => spec_cmd_incr(kv, ttl, args, 1, false),
        Cmd::IncrBy => spec_cmd_incr(kv, ttl, args, 2, false),
        Cmd::Mget => spec_cmd_mget(kv, ttl, args),
        Cmd::Mset => spec_cmd_mset(kv, ttl, args),
        Cmd::MsetNx => spec_cmd_msetnx(kv, ttl, args),
        Cmd::PSetEx => spec_cmd_setex(kv, ttl, args, now, 1),
        Cmd::SetCmd => spec_cmd_set(kv, ttl, args, now),
        Cmd::SetEx => spec_cmd_setex(kv, ttl, args, now, 1000),
        Cmd::SetNx => spec_cmd_setnx(kv, ttl, args),
        Cmd::SetRange => spec_cmd_setrange(kv, ttl, args),
        Cmd::StrLen => spec_cmd_strlen(kv, ttl, args),
    }
}

/// Runs one command against the store: the reply on success, the
/// validation message on a rejected invocation, both exactly as
/// [`spec_execute`] states.
pub fn execute(store: &mut Store, cmd: Cmd, args: &Vec<RedisType>, now: u64) -> (r: Result<
    RedisType,
    String,
>)
    ensures
        realises(
            *old(store),
            *final(store),
            r,
            spec_execute(cmd, old(store).kv(), old(store).ttl_map(), rts_view(args@), now),
        ),
{
    match cmd {
        Cmd::Command => cmd_command(store, args),
        Cmd::Append => cmd_append(store, args),
        Cmd::Decr => cmd_incr(store, args, 1, true),
        Cmd::DecrBy => cmd_incr(store, args, 2, true),
        Cmd::Get => cmd_get(store, args),
        Cmd::GetDel => cmd_getdel(store, args),
        Cmd::GetEx => cmd_getex(store, args, now),
        Cmd::GetRange => cmd_getrange(store, args),
        Cmd::GetSet => cmd_getset(store, args),
        Cmd::Incr => cmd_incr(store, args, 1, false),
        Cmd::IncrBy => cmd_incr(store, args, 2, false),
        Cmd::Mget => cmd_mget(store, args),
        Cmd::Mset => cmd_mset(store, args),
        Cmd::MsetNx => cmd_msetnx(store, args),
        Cmd::PSetEx => cmd_setex(store, args, now, 1),
        Cmd::SetCmd => cmd_set(store, args, now),
        Cmd::SetEx => cmd_setex(store, args, now, 1000),
        Cmd::SetNx => cmd_setnx(store, args),
        Cmd::SetRange => cmd_setrange(store, args),
        Cmd::StrLen => cmd_strlen(store, args),
    }
}

// ------------------------------------------------------------------
// Dispatch
// ------------------------------------------------------------------

/// The reply to a named command, a validation error turned into an error
/// value and an unknown name named in one.
pub open spec fn spec_handle(
    kv: Map<Seq<char>, Seq<char>>,
    ttl: Map<Seq<char>, u64>,
    name: Seq<char>,
    args: Seq<WireVal>,
    now: u64,
) -> CmdOutcome {
    match spec_lookup(name) {
        None => unchanged(Ok(WireVal::ErrorText(msg_unimplemented(name))), kv, ttl),
        Some(cmd) => {
            let o = spec_execute(cmd, kv, ttl, args, now);
            CmdOutcome {
                reply: Ok(
                    match o.reply {
                        Ok(v) => v,
                        Err(m) => WireVal::ErrorText(m),
                    },
                ),
                kv: o.kv,
                ttl: o.ttl,
            }
        },
    }
}

/// Dispatches one command by its upper-cased name: every validation error
/// comes back as an error reply, an unknown name as an error naming it,
/// and the connection's caller never sees a failure.
pub fn handle_command(store: &mut Store, name: &String, args: &Vec<RedisType>, now: u64) -> (r:
    RedisType)
    ensures
        ({
            let o = spec_handle(
                old(store).kv(),
                old(store).ttl_map(),
                name@,
                rts_view(args@),
                now,
            );
            &&& Ok::<WireVal, Seq<char>>(rt_view(r)) == o.reply
            &&& final(store).kv() == o.kv
            &&& final(store).ttl_map() == o.ttl
        }),
{
    match lookup(name) {
        None => {
            let mut m = "Unimplemented command: ".to_owned();
            m.append(name.as_str());
            RedisType::Error { value: m }
        },
        Some(cmd) => {
            match execute(store, cmd, args, now) {
                Ok(v) => v,
                Err(m) => RedisType::Error { value: m },
            }
        },
    }
}

/// What an inbound value must look like to reach a handler: an array of at
/// least one element whose first element is text; its upper-cased form
/// names the command, the rest are the arguments. Anything else is dropped
/// without a reply.
pub open spec fn spec_request_parts(v: WireVal) -> Option<(Seq<char>, Seq<WireVal>)> {
    match v {
        WireVal::List(items) => if items.len() >= 1 {
            match items[0] {
                WireVal::Text(s) => Some((spec_upper(s), items.subrange(1, items.len() as int))),
                _ => None,
            }
        } else {
            None
        },
        _ => None,
    }
}

/// Splits a request into the upper-cased command name and its arguments,
/// or `None` for an envelope that is to be dropped.
pub fn request_parts(req: RedisType) -> (r: Option<(String, Vec<RedisType>)>)
    ensures
        match r {
            Some(p) => spec_request_parts(rt_view(req)) == Some((p.0@, rts_view(p.1@))),
            None => spec_request_parts(rt_view(req)) is None,
        },
{
    match req {
        RedisType::Array { value } => {
            proof {
                lemma_rts_view(value@);
            }
            if value.len() < 1 {
                return None;
            }
            let mut v = value;
            let first = v.remove(0);
            proof {
                lemma_rts_view(v@);
                let items = rts_view(value@);
                assert(rts_view(v@) =~= items.subrange(1, items.len() as int));
            }
            match first {
                RedisType::String { value: name } => Some((to_upper(name.as_str()), v)),
                _ => None,
            }
        },
        _ => None,
    }
}

/// The connection cycle after decoding: `None` for a dropped envelope,
/// otherwise the reply of the named command.
pub open spec fn spec_handle_request(
    kv: Map<Seq<char>, Seq<char>>,
    ttl: Map<Seq<char>, u64>,
    v: WireVal,
    now: u64,
) -> Option<CmdOutcome> {
    match spec_request_parts(v) {
        None => None,
        Some(p) => Some(spec_handle(kv, ttl, p.0, p.1, now)),
    }
}

/// Handles one decoded request end to end: splits the envelope, dispatches
/// the command, and returns the reply, or `None` for an envelope that is
/// dropped without one.
pub fn handle_request(store: &mut Store, req: RedisType, now: u64) -> (r: Option<RedisType>)
    ensures
        ({
            let o = spec_handle_request(old(store).kv(), old(store).ttl_map(), rt_view(req), now);
            match r {
                Some(reply) => match o {
                    Some(oc) => {
                        &&& Ok::<WireVal, Seq<char>>(rt_view(reply)) == oc.reply
                        &&& final(store).kv() == oc.kv
                        &&& final(store).ttl_map() == oc.ttl
                    },
                    None => false,
                },
                None => {
                    &&& o is None
                    &&& final(store).kv() == old(store).kv()
                    &&& final(store).ttl_map() == old(store).ttl_map()
                },
            }
        }),
{
    match request_parts(req) {
        None => None,
        Some((name, args)) => Some(handle_command(store, &name, &args, now)),
    }
}

// ------------------------------------------------------------------
// Laws
// ------------------------------------------------------------------

/// Storing a value and then reading the same key returns exactly that
/// value, whatever else the store holds.
pub proof fn lemma_set_then_get(
    kv: Map<Seq<char>, Seq<char>>,
    ttl: Map<Seq<char>, u64>,
    k: Seq<char>,
    v: Seq<char>,
    now: u64,
)
    ensures
        ({
            let o1 = spec_cmd_set(kv, ttl, seq![WireVal::Text(k), WireVal::Text(v)], now);
            let o2 = spec_cmd_get(o1.kv, o1.ttl, seq![WireVal::Text(k)]);
            &&& o1.reply == Ok::<WireVal, Seq<char>>(WireVal::Text("OK"@))
            &&& o2.reply == Ok::<WireVal, Seq<char>>(WireVal::Text(v))
        }),
{
}

/// `NX` and `XX` together are rejected, and neither map changes.
pub proof fn lemma_set_nx_xx_rejected(
    kv: Map<Seq<char>, Seq<char>>,
    ttl: Map<Seq<char>, u64>,
    k: Seq<char>,
    v: Seq<char>,
    now: u64,
)
    ensures
        ({
            let args = seq![
                WireVal::Text(k),
                WireVal::Text(v),
                WireVal::Text("NX"@),
                WireVal::Text("XX"@),
            ];
            let o = spec_cmd_set(kv, ttl, args, now);
            &&& o.reply == Err::<WireVal, Seq<char>>(msg_nx_and_xx())
            &&& o.kv == kv
            &&& o.ttl == ttl
        }),
{
    reveal_strlit("NX");
    reveal_strlit("XX");
    reveal_with_fuel(spec_set_opts, 5);
    assert(spec_upper("NX"@) =~= "NX"@);
    assert(spec_upper("XX"@) =~= "XX"@);
}

/// After a store with an expiration, a bare overwrite clears the key's
/// entry in the expiration index.
pub proof fn lemma_setex_then_bare_set_clears_ttl(
    kv: Map<Seq<char>, Seq<char>>,
    ttl: Map<Seq<char>, u64>,
    k: Seq<char>,
    secs: int,
    v1: Seq<char>,
    v2: Seq<char>,
    now: u64,
    now2: u64,
)
    requires
        0 <= secs,
        now + secs * 1000 <= u64::MAX,
    ensures
        ({
            let o1 = spec_cmd_setex(
                kv,
                ttl,
                seq![WireVal::Text(k), WireVal::Number(secs), WireVal::Text(v1)],
                now,
                1000,
            );
            let o2 = spec_cmd_set(o1.kv, o1.ttl, seq![WireVal::Text(k), WireVal::Text(v2)], now2);
            &&& o1.ttl.contains_key(k)
            &&& !o2.ttl.contains_key(k)
        }),
{
}

/// After a store with an expiration, an overwrite under `KEEPTTL` leaves
/// the key's entry, instant included, as it was.
pub proof fn lemma_setex_then_keepttl_preserves(
    kv: Map<Seq<char>, Seq<char>>,
    ttl: Map<Seq<char>, u64>,
    k: Seq<char>,
    secs: int,
    v1: Seq<char>,
    v2: Seq<char>,
    now: u64,
    now2: u64,
)
    requires
        0 <= secs,
        now + secs * 1000 <= u64::MAX,
    ensures
        ({
            let o1 = spec_cmd_setex(
                kv,
                ttl,
                seq![WireVal::Text(k), WireVal::Number(secs), WireVal::Text(v1)],
                now,
                1000,
            );
            let o2 = spec_cmd_set(
                o1.kv,
                o1.ttl,
                seq![WireVal::Text(k), WireVal::Text(v2), WireVal::Text("KEEPTTL"@)],
                now2,
            );
            &&& o2.ttl == o1.ttl
            &&& o2.ttl.contains_pair(k, ((now + secs * 1000) as u64))
            &&& o2.kv == o1.kv.insert(k, v2)
        }),
{
    reveal_strlit("NX");
    reveal_strlit("XX");
    reveal_strlit("KEEPTTL");
    reveal_with_fuel(spec_set_opts, 5);
    assert(spec_upper("KEEPTTL"@) =~= "KEEPTTL"@);
}

/// `MSETNX` with any pre-existing key replies 0 and writes nothing, the
/// later pairs included.
pub proof fn lemma_msetnx_no_partial_write(
    kv: Map<Seq<char>, Seq<char>>,
    ttl: Map<Seq<char>, u64>,
    k1: Seq<char>,
    a: Seq<char>,
    k2: Seq<char>,
    b: Seq<char>,
)
    requires
        kv.contains_key(k1),
    ensures
        ({
            let args = seq![
                WireVal::Text(k1),
                WireVal::Text(a),
                WireVal::Text(k2),
                WireVal::Text(b),
            ];
            let o = spec_cmd_msetnx(kv, ttl, args);
            &&& o.reply == Ok::<WireVal, Seq<char>>(WireVal::Number(0))
            &&& o.kv == kv
            &&& o.ttl == ttl
        }),
{
}

/// Incrementing a key whose text is no integer is rejected and changes
/// nothing.
pub proof fn lemma_incr_non_integer(
    kv: Map<Seq<char>, Seq<char>>,
    ttl: Map<Seq<char>, u64>,
    k: Seq<char>,
)
    requires
        kv.contains_key(k),
        spec_parse_i64(kv[k]) is None,
    ensures
        ({
            let o = spec_cmd_incr(kv, ttl, seq![WireVal::Text(k)], 1, false);
            &&& o.reply == Err::<WireVal, Seq<char>>(msg_not_integer())
            &&& o.kv == kv
            &&& o.ttl == ttl
        }),
{
}

/// An unknown command name replies with an error naming it and changes
/// nothing.
pub proof fn lemma_unknown_command(
    kv: Map<Seq<char>, Seq<char>>,
    ttl: Map<Seq<char>, u64>,
    name: Seq<char>,
    args: Seq<WireVal>,
    now: u64,
)
    requires
        spec_lookup(name) is None,
    ensures
        ({
            let o = spec_handle(kv, ttl, name, args, now);
            &&& o.reply == Ok::<WireVal, Seq<char>>(WireVal::ErrorText(msg_unimplemented(name)))
            &&& o.kv == kv
            &&& o.ttl == ttl
        }),
{
}

} // verus!
