//! The grammar of the value that a write command carries.
//!
//! A value is a double-quoted string with the escapes `\\`, `\"`, `\n`, `\t`
//! and `\r`; or an integer, decimal or `0x` hexadecimal, followed by a width
//! suffix `i8`, `i16`, `i32` or `i64` (one space may stand before the
//! suffix); or else a decimal floating-point number. An integer that does
//! not fit its suffix's width is refused, not clamped. Text after the closing
//! quote of a string makes the line no command.
use vstd::prelude::*;

use crate::chars::{
    digits_value, digits_value_in, is_hex_char, lemma_span_bounds, slice_chars, span,
    span_from, string_from_chars, CharClass,
};
use crate::codec::{lemma_pow256_facts, pow256, Literal, LiteralView};
use crate::wire_type::ParseError;

verus! {

pub open spec fn escaped(c: char) -> Option<char> {
    if c == '\\' {
        Some('\\')
    } else if c == '"' {
        Some('"')
    } else if c == 'n' {
        Some('\n')
    } else if c == 't' {
        Some('\t')
    } else if c == 'r' {
        Some('\r')
    } else {
        None
    }
}

pub open spec fn prepend(p: Seq<char>, r: Result<Seq<char>, ParseError>) -> Result<
    Seq<char>,
    ParseError,
> {
    match r {
        Ok(x) => Ok(p + x),
        Err(e) => Err(e),
    }
}

/// The characters of a string literal whose opening quote has been read.
/// `t` must end with the closing quote: a bad escape or a missing closing
/// quote makes the literal malformed, and text after the closing quote makes
/// the line no command.
pub open spec fn string_body(t: Seq<char>) -> Result<Seq<char>, ParseError>
    decreases t.len(),
{
    if t.len() == 0 {
        Err(ParseError::MalformedLiteral)
    } else if t[0] == '"' {
        if t.len() == 1 {
            Ok(Seq::empty())
        } else {
            Err(ParseError::UnrecognizedCommand)
        }
    } else if t[0] == '\\' {
        if t.len() < 2 {
            Err(ParseError::MalformedLiteral)
        } else {
            match escaped(t[1]) {
                Some(c) => prepend(seq![c], string_body(t.skip(2))),
                None => Err(ParseError::MalformedLiteral),
            }
        }
    } else {
        prepend(seq![t[0]], string_body(t.drop_first()))
    }
}

/// Width in bytes named by an integer suffix, 0 when `x` is none.
pub open spec fn suffix_width(x: Seq<char>) -> nat {
    if x == seq!['i', '8'] {
        1
    } else if x == seq!['i', '1', '6'] {
        2
    } else if x == seq!['i', '3', '2'] {
        4
    } else if x == seq!['i', '6', '4'] {
        8
    } else {
        0
    }
}

pub open spec fn is_hex_prefixed(v: Seq<char>) -> bool {
    v.len() >= 2 && v[0] == '0' && v[1] == 'x'
}

/// Where the digits of an integer literal start.
pub open spec fn digits_start(v: Seq<char>) -> nat {
    if is_hex_prefixed(v) {
        2
    } else {
        0
    }
}

pub open spec fn radix_of(v: Seq<char>) -> nat {
    if is_hex_prefixed(v) {
        16
    } else {
        10
    }
}

/// How many digits an integer literal has.
pub open spec fn digits_len(v: Seq<char>) -> nat {
    if is_hex_prefixed(v) {
        span(v.skip(2), CharClass::Hex)
    } else {
        span(v, CharClass::Decimal)
    }
}

/// Where the width suffix of an integer literal starts.
pub open spec fn suffix_start(v: Seq<char>) -> nat {
    let p = digits_start(v) + digits_len(v);
    if p < v.len() && v[p as int] == ' ' {
        p + 1
    } else {
        p
    }
}

/// `v` has the shape of an integer literal: digits, then a width suffix.
pub open spec fn int_shaped(v: Seq<char>) -> bool {
    &&& digits_len(v) >= 1
    &&& is_hex_prefixed(v) ==> digits_len(v) <= 16
    &&& suffix_width(v.skip(suffix_start(v) as int)) != 0
}

/// The number written by the digits of an integer-shaped literal.
pub open spec fn int_magnitude(v: Seq<char>) -> nat {
    digits_value(
        v.subrange(digits_start(v) as int, (digits_start(v) + digits_len(v)) as int),
        radix_of(v),
    )
}

/// The integer literal that an integer-shaped `v` denotes, when its value
/// fits its width.
pub open spec fn int_literal(v: Seq<char>) -> Option<LiteralView> {
    let m = int_magnitude(v);
    let w = suffix_width(v.skip(suffix_start(v) as int));
    if 2 * m >= pow256(w) {
        None
    } else if w == 1 {
        Some(LiteralView::Int8(m as i8))
    } else if w == 2 {
        Some(LiteralView::Int16(m as i16))
    } else if w == 4 {
        Some(LiteralView::Int32(m as i32))
    } else {
        Some(LiteralView::Int64(m as i64))
    }
}

pub open spec fn sign_len(v: Seq<char>) -> nat {
    if v.len() > 0 && (v[0] == '+' || v[0] == '-') {
        1
    } else {
        0
    }
}

/// An exponent's digits with an optional sign, and nothing after them.
pub open spec fn exponent_shaped(e: Seq<char>) -> bool {
    let s = sign_len(e);
    let c = span(e.skip(s as int), CharClass::Decimal);
    c >= 1 && s + c == e.len()
}

/// Decimal floating-point syntax: an optional sign, digits with an optional
/// fraction (at least one digit in all), and an optional exponent.
pub open spec fn float_shaped(v: Seq<char>) -> bool {
    let a0 = sign_len(v);
    let a = span(v.skip(a0 as int), CharClass::Decimal);
    let p = a0 + a;
    let has_point = p < v.len() && v[p as int] == '.';
    let b = if has_point {
        span(v.skip((p + 1) as int), CharClass::Decimal)
    } else {
        0
    };
    let q = if has_point {
        p + 1 + b
    } else {
        p
    };
    &&& a + b >= 1
    &&& q == v.len() || ((v[q as int] == 'e' || v[q as int] == 'E') && exponent_shaped(
        v.skip((q + 1) as int),
    ))
}

/// What the value text `v` of a write command denotes.
pub open spec fn literal_spec(v: Seq<char>) -> Result<LiteralView, ParseError> {
    if v.len() > 0 && v[0] == '"' {
        match string_body(v.skip(1)) {
            Ok(s) => Ok(LiteralView::String(s)),
            Err(e) => Err(e),
        }
    } else if int_shaped(v) {
        match int_literal(v) {
            Some(l) => Ok(l),
            None => Err(ParseError::MalformedLiteral),
        }
    } else if float_shaped(v) {
        Ok(LiteralView::Float(v))
    } else {
        Err(ParseError::MalformedLiteral)
    }
}

fn escaped_of(c: char) -> (r: Option<char>)
    ensures
        r == escaped(c),
{
    if c == '\\' {
        Some('\\')
    } else if c == '"' {
        Some('"')
    } else if c == 'n' {
        Some('\n')
    } else if c == 't' {
        Some('\t')
    } else if c == 'r' {
        Some('\r')
    } else {
        None
    }
}

/// The characters of the string literal whose body starts at `v[start]`.
fn string_body_of(v: &Vec<char>, start: usize) -> (r: Result<Vec<char>, ParseError>)
    requires
        start <= v@.len(),
    ensures
        match r {
            Ok(x) => string_body(v@.skip(start as int)) == Ok::<Seq<char>, ParseError>(x@),
            Err(e) => string_body(v@.skip(start as int)) == Err::<Seq<char>, ParseError>(e),
        },
{
    let mut out: Vec<char> = Vec::new();
    let mut i: usize = start;
    assert(prepend(Seq::empty(), string_body(v@.skip(start as int))) == string_body(
        v@.skip(start as int),
    )) by {
        if let Ok(x) = string_body(v@.skip(start as int)) {
            assert(Seq::<char>::empty() + x =~= x);
        }
    }
    while i < v.len()
        invariant
            start <= i <= v@.len(),
            string_body(v@.skip(start as int)) == prepend(out@, string_body(v@.skip(i as int))),
        decreases v@.len() - i,
    {
        let ghost t = v@.skip(i as int);
        let c = v[i];
        assert(t[0] == c);
        if c == '"' {
            if i + 1 == v.len() {
                assert(out@ + Seq::<char>::empty() =~= out@);
                return Ok(out);
            }
            return Err(ParseError::UnrecognizedCommand);
        } else if c == '\\' {
            if i + 1 == v.len() {
                return Err(ParseError::MalformedLiteral);
            }
            assert(t[1] == v@[i + 1]);
            match escaped_of(v[i + 1]) {
                Some(e) => {
                    assert(t.skip(2) =~= v@.skip(i + 2));
                    proof {
                        if let Ok(x) = string_body(v@.skip(i + 2)) {
                            assert(out@ + (seq![e] + x) =~= out@.push(e) + x);
                        }
                    }
                    out.push(e);
                    i = i + 2;
                },
                None => {
                    return Err(ParseError::MalformedLiteral);
                },
            }
        } else {
            assert(t.drop_first() =~= v@.skip(i + 1));
            proof {
                if let Ok(x) = string_body(v@.skip(i + 1)) {
                    assert(out@ + (seq![c] + x) =~= out@.push(c) + x);
                }
            }
            out.push(c);
            i = i + 1;
        }
    }
    assert(v@.skip(i as int).len() == 0);
    Err(ParseError::MalformedLiteral)
}

/// Whether `v[from..]` is exactly `lit`.
fn rest_equals(v: &Vec<char>, from: usize, lit: &Vec<char>) -> (r: bool)
    requires
        from <= v@.len(),
    ensures
        r == (v@.skip(from as int) == lit@),
{
    let t = slice_chars(v, from, v.len());
    if t.len() != lit.len() {
        return false;
    }
    let mut i: usize = 0;
    while i < t.len()
        invariant
            t@ == v@.skip(from as int),
            t@.len() == lit@.len(),
            i <= t@.len(),
            forall|j: int| 0 <= j < i ==> t@[j] == lit@[j],
        decreases t@.len() - i,
    {
        if t[i] != lit[i] {
            return false;
        }
        i = i + 1;
    }
    assert(t@ =~= lit@);
    true
}

fn suffix_width_at(v: &Vec<char>, from: usize) -> (r: usize)
    requires
        from <= v@.len(),
    ensures
        r == suffix_width(v@.skip(from as int)),
{
    let s8 = vec!['i', '8'];
    let s16 = vec!['i', '1', '6'];
    let s32 = vec!['i', '3', '2'];
    let s64 = vec!['i', '6', '4'];
    assert(s8@ =~= seq!['i', '8']);
    assert(s16@ =~= seq!['i', '1', '6']);
    assert(s32@ =~= seq!['i', '3', '2']);
    assert(s64@ =~= seq!['i', '6', '4']);
    if rest_equals(v, from, &s8) {
        1
    } else if rest_equals(v, from, &s16) {
        2
    } else if rest_equals(v, from, &s32) {
        4
    } else if rest_equals(v, from, &s64) {
        8
    } else {
        0
    }
}

enum IntScan {
    NotInt,
    Int(Option<Literal>),
}

fn scan_int(v: &Vec<char>) -> (r: IntScan)
    ensures
        match r {
            IntScan::NotInt => !int_shaped(v@),
            IntScan::Int(Some(l)) => int_shaped(v@) && int_literal(v@) == Some(l@),
            IntScan::Int(None) => int_shaped(v@) && int_literal(v@) is None,
        },
{
    let hex = v.len() >= 2 && v[0] == '0' && v[1] == 'x';
    let start: usize = if hex {
        2
    } else {
        0
    };
    let radix: u64 = if hex {
        16
    } else {
        10
    };
    let n = if hex {
        span_from(v, 2, CharClass::Hex)
    } else {
        span_from(v, 0, CharClass::Decimal)
    };
    assert(v@.skip(0) =~= v@);
    if n < 1 || (hex && n > 16) {
        return IntScan::NotInt;
    }
    let p = start + n;
    let q = if p < v.len() && v[p] == ' ' {
        p + 1
    } else {
        p
    };
    let w = suffix_width_at(v, q);
    if w == 0 {
        return IntScan::NotInt;
    }
    proof {
        lemma_pow256_facts();
        if hex {
            lemma_span_bounds(v@.skip(2), CharClass::Hex);
            assert forall|j: int| start <= j < p implies is_hex_char(#[trigger] v@[j]) by {
                assert(v@[j] == v@.skip(2)[j - 2]);
            }
        } else {
            lemma_span_bounds(v@, CharClass::Decimal);
        }
    }
    let limit: u64 = if w == 1 {
        0x7f
    } else if w == 2 {
        0x7fff
    } else if w == 4 {
        0x7fff_ffff
    } else {
        0x7fff_ffff_ffff_ffff
    };
    assert(2 * (limit as nat) < pow256(w as nat) && pow256(w as nat) <= 2 * (limit as nat) + 2);
    match digits_value_in(v, start, p, radix, limit) {
        None => IntScan::Int(None),
        Some(m) => {
            let l = if w == 1 {
                Literal::Int8(m as i8)
            } else if w == 2 {
                Literal::Int16(m as i16)
            } else if w == 4 {
                Literal::Int32(m as i32)
            } else {
                Literal::Int64(m as i64)
            };
            IntScan::Int(Some(l))
        },
    }
}

fn sign_len_at(v: &Vec<char>, from: usize) -> (r: usize)
    requires
        from <= v@.len(),
    ensures
        r == sign_len(v@.skip(from as int)),
{
    if from < v.len() && (v[from] == '+' || v[from] == '-') {
        1
    } else {
        0
    }
}

fn is_float_shaped(v: &Vec<char>) -> (r: bool)
    ensures
        r == float_shaped(v@),
{
    assert(v@.skip(0) =~= v@);
    let len = v.len();
    let a0 = sign_len_at(v, 0);
    let a = span_from(v, a0, CharClass::Decimal);
    let p = a0 + a;
    let has_point = p < v.len() && v[p] == '.';
    let b = if has_point {
        span_from(v, p + 1, CharClass::Decimal)
    } else {
        0
    };
    let q = if has_point {
        p + 1 + b
    } else {
        p
    };
    if a + b < 1 {
        return false;
    }
    if q == len {
        return true;
    }
    if v[q] != 'e' && v[q] != 'E' {
        return false;
    }
    let s = sign_len_at(v, q + 1);
    let c = span_from(v, q + 1 + s, CharClass::Decimal);
    assert(v@.skip(q + 1).skip(s as int) =~= v@.skip(q + 1 + s));
    c >= 1 && q + 1 + s + c == len
}

/// The literal that the value text `v` denotes.
pub fn literal_of(v: &Vec<char>) -> (r: Result<Literal, ParseError>)
    ensures
        match r {
            Ok(l) => literal_spec(v@) == Ok::<LiteralView, ParseError>(l@),
            Err(e) => literal_spec(v@) == Err::<LiteralView, ParseError>(e),
        },
{
    if v.len() > 0 && v[0] == '"' {
        match string_body_of(v, 1) {
            Ok(s) => Ok(Literal::String(string_from_chars(&s))),
            Err(e) => Err(e),
        }
    } else {
        match scan_int(v) {
            IntScan::Int(Some(l)) => Ok(l),
            IntScan::Int(None) => Err(ParseError::MalformedLiteral),
            IntScan::NotInt => {
                if is_float_shaped(v) {
                    Ok(Literal::Float(string_from_chars(v)))
                } else {
                    Err(ParseError::MalformedLiteral)
                }
            },
        }
    }
}

} // verus!
