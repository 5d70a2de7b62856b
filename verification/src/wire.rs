//! The protocol value tree and its mathematical model.
//!
//! [`RedisType`] is the executable tree; [`WireVal`] is its ghost mirror, in
//! which text is a `Seq<char>` and integers are unbounded, so that contracts
//! can compare values structurally.

use vstd::prelude::*;

verus! {

/// One wire-level value: the closed set of variants the protocol can carry.
///
/// `NullString` and `String { value: "" }` are distinct values with distinct
/// encodings, and likewise `NullArray` and an empty `Array`.
#[derive(Debug, PartialEq, Eq, Hash)]
pub enum RedisType {
    NullString,
    NullArray,
    String { value: String },
    Error { value: String },
    Integer { value: i64 },
    Array { value: Vec<RedisType> },
}

/// Why a piece of wire text was rejected by the parser.
#[derive(Copy, Clone, Debug, PartialEq, Eq, Structural)]
pub enum RedisTypeParseError {
    /// The input was empty.
    MissingPrefix,
    /// The first character names no variant.
    InvalidPrefix,
    /// A line terminator or payload terminator was missing or malformed.
    InvalidSuffix,
    /// A length field was not a well-formed signed 64-bit decimal.
    InvalidArrayLength,
    /// A complete value was parsed but input remained.
    LeftOverData,
}

/// The ghost mirror of [`RedisType`]: the value a tree denotes.
pub enum WireVal {
    NullString,
    NullArray,
    Text(Seq<char>),
    ErrorText(Seq<char>),
    Number(int),
    List(Seq<WireVal>),
}

/// The value denoted by one tree.
pub open spec fn rt_view(v: RedisType) -> WireVal
    decreases v, 1int,
{
    match v {
        RedisType::NullString => WireVal::NullString,
        RedisType::NullArray => WireVal::NullArray,
        RedisType::String { value } => WireVal::Text(value@),
        RedisType::Error { value } => WireVal::ErrorText(value@),
        RedisType::Integer { value } => WireVal::Number(value as int),
        RedisType::Array { value } => WireVal::List(rts_view(value@)),
    }
}

/// The values denoted by a sequence of trees, in order.
pub open spec fn rts_view(s: Seq<RedisType>) -> Seq<WireVal>
    decreases s, 0int,
{
    if s.len() == 0 {
        Seq::empty()
    } else {
        seq![rt_view(s[0])] + rts_view(s.subrange(1, s.len() as int))
    }
}

impl View for RedisType {
    type V = WireVal;

    open spec fn view(&self) -> WireVal {
        rt_view(*self)
    }
}

impl From<Option<String>> for RedisType {
    /// A present value as text, an absent one as the null string.
    fn from(value: Option<String>) -> (r: Self) {
        match value {
            Some(v) => RedisType::String { value: v },
            None => RedisType::NullString,
        }
    }
}

impl vstd::std_specs::convert::FromSpecImpl<Option<String>> for RedisType {
    open spec fn obeys_from_spec() -> bool {
        true
    }

    open spec fn from_spec(value: Option<String>) -> Self {
        match value {
            Some(v) => RedisType::String { value: v },
            None => RedisType::NullString,
        }
    }
}

impl From<String> for RedisType {
    fn from(value: String) -> (r: Self) {
        RedisType::String { value }
    }
}

impl vstd::std_specs::convert::FromSpecImpl<String> for RedisType {
    open spec fn obeys_from_spec() -> bool {
        true
    }

    open spec fn from_spec(value: String) -> Self {
        RedisType::String { value }
    }
}

impl From<i64> for RedisType {
    fn from(value: i64) -> (r: Self) {
        RedisType::Integer { value }
    }
}

impl vstd::std_specs::convert::FromSpecImpl<i64> for RedisType {
    open spec fn obeys_from_spec() -> bool {
        true
    }

    open spec fn from_spec(value: i64) -> Self {
        RedisType::Integer { value }
    }
}

impl From<Vec<RedisType>> for RedisType {
    fn from(value: Vec<RedisType>) -> (r: Self) {
        RedisType::Array { value }
    }
}

impl vstd::std_specs::convert::FromSpecImpl<Vec<RedisType>> for RedisType {
    open spec fn obeys_from_spec() -> bool {
        true
    }

    open spec fn from_spec(value: Vec<RedisType>) -> Self {
        RedisType::Array { value }
    }
}

/// Appending a tree appends its value.
pub proof fn lemma_rts_view_push(s: Seq<RedisType>, v: RedisType)
    ensures
        rts_view(s.push(v)) == rts_view(s).push(rt_view(v)),
{
    lemma_rts_view(s);
    lemma_rts_view(s.push(v));
    assert(rts_view(s.push(v)) =~= rts_view(s).push(rt_view(v)));
}

/// No carriage-return-then-line-feed pair inside the text, so that the text
/// can stand on a single protocol line.
pub open spec fn line_safe(s: Seq<char>) -> bool {
    forall|j: int| 0 <= j && j + 1 < s.len() ==> !(#[trigger] s[j] == '\r' && s[j + 1] == '\n')
}

/// The values whose encoding reads back as the same value: lengths fit the
/// signed 64-bit length fields, error text stays on its line, and numbers
/// are 64-bit.
pub open spec fn wf_val(v: WireVal) -> bool
    decreases v, 1int,
{
    match v {
        WireVal::NullString => true,
        WireVal::NullArray => true,
        WireVal::Text(s) => s.len() <= i64::MAX,
        WireVal::ErrorText(s) => line_safe(s),
        WireVal::Number(n) => i64::MIN <= n <= i64::MAX,
        WireVal::List(items) => items.len() <= i64::MAX && wfs_vals(items),
    }
}

/// All values of a sequence are well-formed.
pub open spec fn wfs_vals(items: Seq<WireVal>) -> bool
    decreases items, 0int,
{
    if items.len() == 0 {
        true
    } else {
        wf_val(items[0]) && wfs_vals(items.subrange(1, items.len() as int))
    }
}

/// `wfs_vals` holds exactly when every element is well-formed.
pub proof fn lemma_wfs_vals(items: Seq<WireVal>)
    ensures
        wfs_vals(items) <==> (forall|i: int| 0 <= i < items.len() ==> wf_val(items[i])),
    decreases items.len(),
{
    if items.len() > 0 {
        let tail = items.subrange(1, items.len() as int);
        lemma_wfs_vals(tail);
        if wfs_vals(items) {
            assert forall|i: int| 0 <= i < items.len() implies wf_val(items[i]) by {
                if i >= 1 {
                    assert(items[i] == tail[i - 1]);
                }
            }
        }
        if forall|i: int| 0 <= i < items.len() ==> wf_val(items[i]) {
            assert forall|k: int| 0 <= k < tail.len() implies wf_val(tail[k]) by {
                assert(tail[k] == items[k + 1]);
            }
            assert(wfs_vals(tail));
        }
    }
}

/// `rts_view` maps element by element.
pub proof fn lemma_rts_view(s: Seq<RedisType>)
    ensures
        rts_view(s).len() == s.len(),
        forall|i: int| 0 <= i < s.len() ==> rts_view(s)[i] == rt_view(s[i]),
    decreases s.len(),
{
    if s.len() > 0 {
        lemma_rts_view(s.subrange(1, s.len() as int));
    }
}

} // verus!
