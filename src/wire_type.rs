//! The closed set of wire types and the registry of their textual tags.
use vstd::prelude::*;

use crate::chars::chars_of;

verus! {

/// How the bytes of a dictionary entry are to be read.
#[derive(Clone, Copy, Debug, PartialEq, Eq, Structural)]
pub enum WireType {
    Bool,
    U8,
    U16,
    U32,
    U64,
    I8,
    I16,
    I32,
    I64,
    ArrayU8,
    ArrayU16,
    ArrayU32,
    ArrayU64,
    ArrayI8,
    ArrayI16,
    ArrayI32,
    ArrayI64,
    F32,
    F64,
    String,
}

/// Why a line of text is not a command.
#[derive(Clone, Copy, Debug, PartialEq, Eq, Structural)]
pub enum ParseError {
    /// The line does not have the shape of a read or a write command.
    UnrecognizedCommand,
    /// The object index is not `0x<hex>:<decimal>` with both parts in range.
    MalformedObjectIndex,
    /// The type tag is not one of the registry's tags.
    UnknownTypeTag,
    /// The value is neither a string literal nor a number.
    MalformedLiteral,
}

/// The textual tag of each wire type.
pub open spec fn tag_of(t: WireType) -> Seq<char> {
    match t {
        WireType::Bool => seq!['b', 'o', 'o', 'l'],
        WireType::U8 => seq!['u', '8'],
        WireType::U16 => seq!['u', '1', '6'],
        WireType::U32 => seq!['u', '3', '2'],
        WireType::U64 => seq!['u', '6', '4'],
        WireType::I8 => seq!['i', '8'],
        WireType::I16 => seq!['i', '1', '6'],
        WireType::I32 => seq!['i', '3', '2'],
        WireType::I64 => seq!['i', '6', '4'],
        WireType::ArrayU8 => seq!['[', 'u', '8', ']'],
        WireType::ArrayU16 => seq!['[', 'u', '1', '6', ']'],
        WireType::ArrayU32 => seq!['[', 'u', '3', '2', ']'],
        WireType::ArrayU64 => seq!['[', 'u', '6', '4', ']'],
        WireType::ArrayI8 => seq!['[', 'i', '8', ']'],
        WireType::ArrayI16 => seq!['[', 'i', '1', '6', ']'],
        WireType::ArrayI32 => seq!['[', 'i', '3', '2', ']'],
        WireType::ArrayI64 => seq!['[', 'i', '6', '4', ']'],
        WireType::F32 => seq!['f', '3', '2'],
        WireType::F64 => seq!['f', '6', '4'],
        WireType::String => seq!['S', 't', 'r', 'i', 'n', 'g'],
    }
}

/// The wire type whose tag is `s`, if there is one.
pub open spec fn resolve_spec(s: Seq<char>) -> Option<WireType> {
    if exists|t: WireType| tag_of(t) == s {
        Some(choose|t: WireType| tag_of(t) == s)
    } else {
        None
    }
}

/// Width in bytes of one scalar, or of one array element (0 for `String`).
pub open spec fn width_of(t: WireType) -> nat {
    match t {
        WireType::Bool | WireType::U8 | WireType::I8 | WireType::ArrayU8 | WireType::ArrayI8 => 1,
        WireType::U16 | WireType::I16 | WireType::ArrayU16 | WireType::ArrayI16 => 2,
        WireType::U32 | WireType::I32 | WireType::ArrayU32 | WireType::ArrayI32
        | WireType::F32 => 4,
        WireType::U64 | WireType::I64 | WireType::ArrayU64 | WireType::ArrayI64
        | WireType::F64 => 8,
        WireType::String => 0,
    }
}

/// Whether values of the type read as two's complement.
pub open spec fn is_signed(t: WireType) -> bool {
    t is I8 || t is I16 || t is I32 || t is I64 || t is ArrayI8 || t is ArrayI16
        || t is ArrayI32 || t is ArrayI64
}

pub open spec fn is_array(t: WireType) -> bool {
    t is ArrayU8 || t is ArrayU16 || t is ArrayU32 || t is ArrayU64 || t is ArrayI8
        || t is ArrayI16 || t is ArrayI32 || t is ArrayI64
}

pub open spec fn is_float(t: WireType) -> bool {
    t is F32 || t is F64
}

/// No two wire types share a tag.
pub proof fn lemma_tags_distinct(a: WireType, b: WireType)
    ensures
        tag_of(a) == tag_of(b) ==> a == b,
{
    if tag_of(a) == tag_of(b) {
        let (x, y) = (tag_of(a), tag_of(b));
        assert(x.len() == y.len());
        assert(x[0] == y[0]);
        if x.len() > 1 {
            assert(x[1] == y[1]);
        }
        if x.len() > 2 {
            assert(x[2] == y[2]);
        }
        if x.len() > 3 {
            assert(x[3] == y[3]);
        }
    }
}

/// The registry maps each tag back to the type it names, and nothing else to a type.
pub proof fn lemma_resolve_tag(t: WireType)
    ensures
        resolve_spec(tag_of(t)) == Some(t),
{
    let s = tag_of(t);
    assert(tag_of(t) == s);
    let u = choose|u: WireType| tag_of(u) == s;
    lemma_tags_distinct(t, u);
}

impl WireType {
    /// The tag that names this type.
    pub fn tag(&self) -> (r: Vec<char>)
        ensures
            r@ == tag_of(*self),
    {
        let r = match self {
            WireType::Bool => vec!['b', 'o', 'o', 'l'],
            WireType::U8 => vec!['u', '8'],
            WireType::U16 => vec!['u', '1', '6'],
            WireType::U32 => vec!['u', '3', '2'],
            WireType::U64 => vec!['u', '6', '4'],
            WireType::I8 => vec!['i', '8'],
            WireType::I16 => vec!['i', '1', '6'],
            WireType::I32 => vec!['i', '3', '2'],
            WireType::I64 => vec!['i', '6', '4'],
            WireType::ArrayU8 => vec!['[', 'u', '8', ']'],
            WireType::ArrayU16 => vec!['[', 'u', '1', '6', ']'],
            WireType::ArrayU32 => vec!['[', 'u', '3', '2', ']'],
            WireType::ArrayU64 => vec!['[', 'u', '6', '4', ']'],
            WireType::ArrayI8 => vec!['[', 'i', '8', ']'],
            WireType::ArrayI16 => vec!['[', 'i', '1', '6', ']'],
            WireType::ArrayI32 => vec!['[', 'i', '3', '2', ']'],
            WireType::ArrayI64 => vec!['[', 'i', '6', '4', ']'],
            WireType::F32 => vec!['f', '3', '2'],
            WireType::F64 => vec!['f', '6', '4'],
            WireType::String => vec!['S', 't', 'r', 'i', 'n', 'g'],
        };
        assert(r@ =~= tag_of(*self));
        r
    }
}

/// Every wire type, each once.
fn all_wire_types() -> (r: Vec<WireType>)
    ensures
        forall|t: WireType| #[trigger] r@.contains(t),
{
    let r = vec![
        WireType::Bool,
        WireType::U8,
        WireType::U16,
        WireType::U32,
        WireType::U64,
        WireType::I8,
        WireType::I16,
        WireType::I32,
        WireType::I64,
        WireType::ArrayU8,
        WireType::ArrayU16,
        WireType::ArrayU32,
        WireType::ArrayU64,
        WireType::ArrayI8,
        WireType::ArrayI16,
        WireType::ArrayI32,
        WireType::ArrayI64,
        WireType::F32,
        WireType::F64,
        WireType::String,
    ];
    assert forall|t: WireType| #[trigger] r@.contains(t) by {
        let i: int = match t {
            WireType::Bool => 0,
            WireType::U8 => 1,
            WireType::U16 => 2,
            WireType::U32 => 3,
            WireType::U64 => 4,
            WireType::I8 => 5,
            WireType::I16 => 6,
            WireType::I32 => 7,
            WireType::I64 => 8,
            WireType::ArrayU8 => 9,
            WireType::ArrayU16 => 10,
            WireType::ArrayU32 => 11,
            WireType::ArrayU64 => 12,
            WireType::ArrayI8 => 13,
            WireType::ArrayI16 => 14,
            WireType::ArrayI32 => 15,
            WireType::ArrayI64 => 16,
            WireType::F32 => 17,
            WireType::F64 => 18,
            WireType::String => 19,
        };
        assert(r@[i] == t);
    }
    r
}

/// Whether `s[start..end]` equals `lit`.
pub fn slice_equals(s: &Vec<char>, start: usize, end: usize, lit: &Vec<char>) -> (r: bool)
    requires
        start <= end <= s@.len(),
    ensures
        r == (s@.subrange(start as int, end as int) == lit@),
{
    if end - start != lit.len() {
        return false;
    }
    let mut i: usize = 0;
    while i < lit.len()
        invariant
            start <= end <= s@.len(),
            end - start == lit@.len(),
            i <= lit@.len(),
            forall|j: int| 0 <= j < i ==> s@[start + j] == lit@[j],
        decreases lit@.len() - i,
    {
        if s[start + i] != lit[i] {
            assert(s@.subrange(start as int, end as int)[i as int] != lit@[i as int]);
            return false;
        }
        i = i + 1;
    }
    assert(s@.subrange(start as int, end as int) =~= lit@);
    true
}

/// The wire type whose tag is `s[start..end]`, if any.
pub fn resolve_span(s: &Vec<char>, start: usize, end: usize) -> (r: Option<WireType>)
    requires
        start <= end <= s@.len(),
    ensures
        r == resolve_spec(s@.subrange(start as int, end as int)),
{
    let ghost want = s@.subrange(start as int, end as int);
    let all = all_wire_types();
    let mut i: usize = 0;
    while i < all.len()
        invariant
            forall|t: WireType| #[trigger] all@.contains(t),
            start <= end <= s@.len(),
            want == s@.subrange(start as int, end as int),
            i <= all@.len(),
            forall|j: int| 0 <= j < i ==> tag_of(#[trigger] all@[j]) != want,
        decreases all@.len() - i,
    {
        let t = all[i];
        if slice_equals(s, start, end, &t.tag()) {
            proof {
                lemma_resolve_tag(t);
            }
            return Some(t);
        }
        i = i + 1;
    }
    proof {
        assert forall|t: WireType| tag_of(t) != want by {
            assert(all@.contains(t));
            let j = choose|j: int| 0 <= j < all@.len() && all@[j] == t;
            assert(tag_of(all@[j]) != want);
        }
    }
    None
}

/// The wire type named by `tag`: a scalar tag such as `u16`, a bracketed
/// integer array tag such as `[i32]`, `f32`, `f64` or `String`.
pub fn resolve(tag: &str) -> (r: Result<WireType, ParseError>)
    ensures
        r == match resolve_spec(tag@) {
            Some(t) => Ok::<WireType, ParseError>(t),
            None => Err(ParseError::UnknownTypeTag),
        },
{
    let s = chars_of(tag);
    assert(s@.subrange(0, s@.len() as int) =~= s@);
    match resolve_span(&s, 0, s.len()) {
        Some(t) => Ok(t),
        None => Err(ParseError::UnknownTypeTag),
    }
}

} // verus!
