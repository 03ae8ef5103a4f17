//! Little-endian decoding of dictionary bytes into display text, and
//! encoding of literal values into the bytes that a write sends.
use vstd::prelude::*;
use vstd::utf8::{
    decode_utf8, encode_utf8, encode_utf8_decode_utf8, encode_utf8_valid_utf8, valid_utf8,
};

use crate::chars::{int_text, push_int_text, string_from_chars};
use crate::wire_type::{is_array, is_float, is_signed, width_of, WireType};

verus! {

/// Why a byte buffer does not hold a value of the requested type.
#[derive(Clone, Copy, Debug, PartialEq, Eq, Structural)]
pub enum DecodeError {
    /// Fewer bytes than one value of the type needs.
    ShortBuffer,
    /// The bytes of a string are not UTF-8.
    InvalidUtf8,
    /// The length of an array buffer is not a multiple of the element width.
    ArrayLengthMisaligned,
}

/// A decoded value, ready to show.
///
/// Floating-point values are handed out as their IEEE-754 bit patterns; the
/// front end turns them into text.
#[derive(Clone, Debug, PartialEq, Eq)]
pub enum Rendered {
    Text(String),
    Float32(u32),
    Float64(u64),
}

/// The mathematical content of a [`Rendered`].
pub enum RenderedView {
    Text(Seq<char>),
    Float32(u32),
    Float64(u64),
}

impl View for Rendered {
    type V = RenderedView;

    open spec fn view(&self) -> RenderedView {
        match self {
            Rendered::Text(s) => RenderedView::Text(s@),
            Rendered::Float32(b) => RenderedView::Float32(*b),
            Rendered::Float64(b) => RenderedView::Float64(*b),
        }
    }
}

pub open spec fn pow256(n: nat) -> nat
    decreases n,
{
    if n == 0 {
        1
    } else {
        256 * pow256((n - 1) as nat)
    }
}

/// Unsigned value of little-endian bytes: the first byte is the least significant.
pub open spec fn le_value(b: Seq<u8>) -> nat
    decreases b.len(),
{
    if b.len() == 0 {
        0
    } else {
        b[0] as nat + 256 * le_value(b.drop_first())
    }
}

/// Two's complement reading of the `w`-byte unsigned value `u`.
pub open spec fn signed_value(u: nat, w: nat) -> int {
    if 2 * u >= pow256(w) {
        u - pow256(w)
    } else {
        u as int
    }
}

/// Value of the first `width_of(t)` bytes of `b`, read as type `t` (or as
/// its element type for arrays).
pub open spec fn scalar_value(t: WireType, b: Seq<u8>) -> int {
    let u = le_value(b.take(width_of(t) as int));
    if is_signed(t) {
        signed_value(u, width_of(t))
    } else {
        u as int
    }
}

pub open spec fn elem_text(t: WireType, b: Seq<u8>) -> Seq<char> {
    int_text(scalar_value(t, b))
}

/// The elements of an array buffer as decimal text, separated by `", "`.
pub open spec fn items_text(t: WireType, b: Seq<u8>) -> Seq<char>
    decreases b.len(),
{
    let w = width_of(t);
    if b.len() == 0 {
        Seq::empty()
    } else if b.len() <= w || w == 0 {
        elem_text(t, b)
    } else {
        items_text(t, b.subrange(0, b.len() - w)) + seq![',', ' '] + elem_text(
            t,
            b.subrange(b.len() - w, b.len() as int),
        )
    }
}

pub open spec fn bool_text(b: bool) -> Seq<char> {
    if b {
        seq!['t', 'r', 'u', 'e']
    } else {
        seq!['f', 'a', 'l', 's', 'e']
    }
}

/// What decoding `b` as type `t` gives.
pub open spec fn decode_spec(t: WireType, b: Seq<u8>) -> Result<RenderedView, DecodeError> {
    if t is String {
        if valid_utf8(b) {
            Ok(RenderedView::Text(decode_utf8(b)))
        } else {
            Err(DecodeError::InvalidUtf8)
        }
    } else if is_array(t) {
        if b.len() % width_of(t) != 0 {
            Err(DecodeError::ArrayLengthMisaligned)
        } else {
            Ok(RenderedView::Text(seq!['['] + items_text(t, b) + seq![']']))
        }
    } else if b.len() < width_of(t) {
        Err(DecodeError::ShortBuffer)
    } else if t is Bool {
        Ok(RenderedView::Text(bool_text(b[0] != 0)))
    } else if t is F32 {
        Ok(RenderedView::Float32(le_value(b.take(4)) as u32))
    } else if t is F64 {
        Ok(RenderedView::Float64(le_value(b.take(8)) as u64))
    } else {
        Ok(RenderedView::Text(int_text(scalar_value(t, b))))
    }
}

pub open spec fn decoded_as(r: Result<Rendered, DecodeError>, t: WireType, b: Seq<u8>) -> bool {
    match r {
        Ok(x) => decode_spec(t, b) == Ok::<RenderedView, DecodeError>(x@),
        Err(e) => decode_spec(t, b) == Err::<RenderedView, DecodeError>(e),
    }
}

pub proof fn lemma_pow256_facts()
    ensures
        pow256(1) == 0x100,
        pow256(2) == 0x1_0000,
        pow256(4) == 0x1_0000_0000,
        pow256(8) == 0x1_0000_0000_0000_0000,
{
    reveal_with_fuel(pow256, 9);
}

pub proof fn lemma_pow256_mono(a: nat, b: nat)
    requires
        a <= b,
    ensures
        1 <= pow256(a) <= pow256(b),
    decreases b,
{
    if b > 0 {
        if a == b {
            lemma_pow256_mono(0, (b - 1) as nat);
        } else {
            lemma_pow256_mono(a, (b - 1) as nat);
        }
    }
}

pub proof fn lemma_le_value_bound(b: Seq<u8>)
    ensures
        le_value(b) < pow256(b.len()),
    decreases b.len(),
{
    if b.len() > 0 {
        let r = le_value(b.drop_first());
        lemma_le_value_bound(b.drop_first());
        let p = pow256((b.len() - 1) as nat);
        assert(b[0] as nat + 256 * r < 256 * p) by (nonlinear_arith)
            requires
                r < p,
                b[0] < 256,
        ;
    }
}

/// Unsigned value of `b[start..start + w]`, little-endian.
fn read_le(b: &[u8], start: usize, w: usize) -> (r: u64)
    requires
        1 <= w <= 8,
        start + w <= b@.len(),
    ensures
        r == le_value(b@.subrange(start as int, start + w)),
{
    let n = b.len();
    let mut acc: u64 = 0;
    let mut k: usize = w;
    proof {
        assert(b@.subrange(start + k, start + w).len() == 0);
        lemma_pow256_facts();
    }
    while k > 0
        invariant
            1 <= w <= 8,
            start + w <= b@.len(),
            k <= w,
            n == b@.len(),
            acc == le_value(b@.subrange(start + k, start + w)),
            acc < pow256((w - k) as nat),
            pow256(8) == 0x1_0000_0000_0000_0000,
        decreases k,
    {
        k = k - 1;
        let ghost s = b@.subrange(start + k, start + w);
        assert(s.drop_first() =~= b@.subrange(start + k + 1, start + w));
        assert(s[0] == b@[start + k]);
        proof {
            lemma_pow256_mono((w - k) as nat, 8);
            let p = pow256((w - k - 1) as nat);
            assert(acc * 256 + b@[start + k] < 256 * p) by (nonlinear_arith)
                requires
                    acc < p,
                    b@[start + k] < 256,
            ;
            assert(256 * p == pow256((w - k) as nat));
            assert(acc * 256 + b@[start + k] < 0x1_0000_0000_0000_0000);
        }
        let byte: u8 = b[start + k];
        acc = acc * 256 + byte as u64;
    }
    acc
}

/// Sign and magnitude of the two's complement reading of the `w`-byte value `u`.
fn split_signed(u: u64, w: usize) -> (r: (bool, u64))
    requires
        w == 1 || w == 2 || w == 4 || w == 8,
        u < pow256(w as nat),
    ensures
        (if r.0 { -(r.1 as int) } else { r.1 as int }) == signed_value(u as nat, w as nat),
{
    proof {
        lemma_pow256_facts();
    }
    let half: u64 = if w == 1 {
        0x80
    } else if w == 2 {
        0x8000
    } else if w == 4 {
        0x8000_0000
    } else {
        0x8000_0000_0000_0000
    };
    assert(2 * half == pow256(w as nat));
    if u >= half {
        (true, half - (u - half))
    } else {
        (false, u)
    }
}

/// Appends the decimal text of the element of type `t` at `b[start..]`.
fn push_elem_text(out: &mut Vec<char>, t: WireType, b: &[u8], start: usize)
    requires
        !is_float(t),
        !(t is String),
        !(t is Bool),
        start + width_of(t) <= b@.len(),
    ensures
        final(out)@ == old(out)@ + elem_text(
            t,
            b@.subrange(start as int, start + width_of(t)),
        ),
{
    let w: usize = match t {
        WireType::U8 | WireType::I8 | WireType::ArrayU8 | WireType::ArrayI8 => 1,
        WireType::U16 | WireType::I16 | WireType::ArrayU16 | WireType::ArrayI16 => 2,
        WireType::U32 | WireType::I32 | WireType::ArrayU32 | WireType::ArrayI32 => 4,
        _ => 8,
    };
    assert(w == width_of(t));
    let ghost s = b@.subrange(start as int, start + w);
    assert(s.take(w as int) =~= s);
    let u = read_le(b, start, w);
    proof {
        lemma_le_value_bound(s);
    }
    let signed = match t {
        WireType::I8 | WireType::I16 | WireType::I32 | WireType::I64 | WireType::ArrayI8
        | WireType::ArrayI16 | WireType::ArrayI32 | WireType::ArrayI64 => true,
        _ => false,
    };
    assert(signed == is_signed(t));
    if signed {
        let (negative, mag) = split_signed(u, w);
        push_int_text(out, negative, mag);
    } else {
        push_int_text(out, false, u);
    }
}

/// Relies on `String::from_utf8`: it succeeds exactly on valid UTF-8, and the
/// string then holds the characters that the bytes encode.
#[verifier::external_body]
fn utf8_to_string(b: &[u8]) -> (r: Option<String>)
    ensures
        r is Some <==> valid_utf8(b@),
        r matches Some(s) ==> s@ == decode_utf8(b@),
{
    String::from_utf8(b.to_vec()).ok()
}

fn text_of(v: &Vec<char>) -> (r: Rendered)
    ensures
        r@ == RenderedView::Text(v@),
{
    Rendered::Text(string_from_chars(v))
}

/// Decodes an array buffer of element type `t`.
fn decode_array(t: WireType, b: &[u8]) -> (r: Rendered)
    requires
        is_array(t),
        b@.len() % width_of(t) == 0,
    ensures
        r@ == RenderedView::Text(seq!['['] + items_text(t, b@) + seq![']']),
{
    let w: usize = match t {
        WireType::ArrayU8 | WireType::ArrayI8 => 1,
        WireType::ArrayU16 | WireType::ArrayI16 => 2,
        WireType::ArrayU32 | WireType::ArrayI32 => 4,
        _ => 8,
    };
    assert(w == width_of(t));
    let mut out: Vec<char> = vec!['['];
    let mut i: usize = 0;
    while i < b.len()
        invariant
            is_array(t),
            w == width_of(t),
            b@.len() % (w as nat) == 0,
            i <= b@.len(),
            i % w == 0,
            out@ == seq!['['] + items_text(t, b@.subrange(0, i as int)),
        decreases b@.len() - i,
    {
        assert(i + w <= b@.len()) by (nonlinear_arith)
            requires
                i < b@.len(),
                i % w == 0,
                b@.len() % (w as nat) == 0,
                w >= 1,
        {
            assert(i == w * (i / w));
            assert(b@.len() == w * (b@.len() / (w as nat)));
            assert(i / w < b@.len() / (w as nat));
        }
        if i > 0 {
            out.push(',');
            out.push(' ');
        }
        push_elem_text(&mut out, t, b, i);
        let ghost s = b@.subrange(0, i + w);
        assert(s.subrange(0, s.len() - w) =~= b@.subrange(0, i as int));
        assert(s.subrange(s.len() - w, s.len() as int) =~= b@.subrange(i as int, i + w));
        if i == 0 {
            assert(b@.subrange(0, 0).len() == 0);
        }
        i = i + w;
        assert(i % w == 0) by (nonlinear_arith)
            requires
                i == (i - w) + w,
                (i - w) % (w as int) == 0,
                w >= 1,
        ;
        assert(out@ =~= seq!['['] + items_text(t, b@.subrange(0, i as int)));
    }
    assert(b@.subrange(0, i as int) =~= b@);
    out.push(']');
    assert(out@ =~= seq!['['] + items_text(t, b@) + seq![']']);
    text_of(&out)
}

/// Renders the bytes read from a dictionary entry according to `t`.
///
/// A boolean is false when its first byte is 0 and true otherwise; integers
/// read the first bytes of their width, little-endian; an array needs a
/// length that is a multiple of its element width and shows as `[a, b]`; a
/// string must be UTF-8 and is taken whole.
pub fn decode(t: WireType, b: &[u8]) -> (r: Result<Rendered, DecodeError>)
    ensures
        decoded_as(r, t, b@),
{
    match t {
        WireType::String => match utf8_to_string(b) {
            Some(s) => Ok(Rendered::Text(s)),
            None => Err(DecodeError::InvalidUtf8),
        },
        WireType::ArrayU8 | WireType::ArrayU16 | WireType::ArrayU32 | WireType::ArrayU64
        | WireType::ArrayI8 | WireType::ArrayI16 | WireType::ArrayI32 | WireType::ArrayI64 => {
            let w: usize = match t {
                WireType::ArrayU8 | WireType::ArrayI8 => 1,
                WireType::ArrayU16 | WireType::ArrayI16 => 2,
                WireType::ArrayU32 | WireType::ArrayI32 => 4,
                _ => 8,
            };
            if b.len() % w != 0 {
                Err(DecodeError::ArrayLengthMisaligned)
            } else {
                Ok(decode_array(t, b))
            }
        },
        WireType::Bool => {
            if b.len() < 1 {
                Err(DecodeError::ShortBuffer)
            } else if b[0] != 0 {
                Ok(text_of(&vec!['t', 'r', 'u', 'e']))
            } else {
                Ok(text_of(&vec!['f', 'a', 'l', 's', 'e']))
            }
        },
        WireType::F32 => {
            if b.len() < 4 {
                Err(DecodeError::ShortBuffer)
            } else {
                let u = read_le(b, 0, 4);
                proof {
                    lemma_le_value_bound(b@.subrange(0, 4));
                    lemma_pow256_facts();
                    assert(b@.take(4) =~= b@.subrange(0, 4));
                }
                Ok(Rendered::Float32(u as u32))
            }
        },
        WireType::F64 => {
            if b.len() < 8 {
                Err(DecodeError::ShortBuffer)
            } else {
                let u = read_le(b, 0, 8);
                assert(b@.take(8) =~= b@.subrange(0, 8));
                Ok(Rendered::Float64(u))
            }
        },
        _ => {
            let w: usize = match t {
                WireType::U8 | WireType::I8 => 1,
                WireType::U16 | WireType::I16 => 2,
                WireType::U32 | WireType::I32 => 4,
                _ => 8,
            };
            assert(w == width_of(t));
            if b.len() < w {
                Err(DecodeError::ShortBuffer)
            } else {
                let mut out: Vec<char> = Vec::new();
                push_elem_text(&mut out, t, b, 0);
                let ghost s = b@.subrange(0, w as int);
                assert(s.take(w as int) =~= b@.take(w as int));
                assert(out@ =~= int_text(scalar_value(t, b@)));
                Ok(text_of(&out))
            }
        },
    }
}

/// A value written by a command.
///
/// A floating-point literal is kept as the decimal text it was written in;
/// the front end converts it to an IEEE-754 double.
#[derive(Clone, Debug, PartialEq, Eq)]
pub enum Literal {
    Int8(i8),
    Int16(i16),
    Int32(i32),
    Int64(i64),
    Float(String),
    String(String),
}

/// The mathematical content of a [`Literal`].
pub enum LiteralView {
    Int8(i8),
    Int16(i16),
    Int32(i32),
    Int64(i64),
    Float(Seq<char>),
    String(Seq<char>),
}

impl View for Literal {
    type V = LiteralView;

    open spec fn view(&self) -> LiteralView {
        match self {
            Literal::Int8(v) => LiteralView::Int8(*v),
            Literal::Int16(v) => LiteralView::Int16(*v),
            Literal::Int32(v) => LiteralView::Int32(*v),
            Literal::Int64(v) => LiteralView::Int64(*v),
            Literal::Float(s) => LiteralView::Float(s@),
            Literal::String(s) => LiteralView::String(s@),
        }
    }
}

/// The `w` low bytes of `u`, least significant first.
pub open spec fn le_bytes(u: nat, w: nat) -> Seq<u8>
    decreases w,
{
    if w == 0 {
        Seq::empty()
    } else {
        seq![(u % 256) as u8] + le_bytes(u / 256, (w - 1) as nat)
    }
}

/// The unsigned number whose `w`-byte two's complement reading is `v`.
pub open spec fn twos(v: int, w: nat) -> nat {
    if v < 0 {
        (v + pow256(w)) as nat
    } else {
        v as nat
    }
}

pub open spec fn is_int_literal(l: LiteralView) -> bool {
    l is Int8 || l is Int16 || l is Int32 || l is Int64
}

/// The integer that an integer literal holds.
pub open spec fn literal_int(l: LiteralView) -> int {
    match l {
        LiteralView::Int8(v) => v as int,
        LiteralView::Int16(v) => v as int,
        LiteralView::Int32(v) => v as int,
        LiteralView::Int64(v) => v as int,
        _ => 0,
    }
}

/// The wire type that reads back what an integer literal encodes to.
pub open spec fn literal_type(l: LiteralView) -> WireType {
    match l {
        LiteralView::Int8(_) => WireType::I8,
        LiteralView::Int16(_) => WireType::I16,
        LiteralView::Int32(_) => WireType::I32,
        LiteralView::Int64(_) => WireType::I64,
        _ => WireType::String,
    }
}

/// The bytes a literal is written as: little-endian two's complement of the
/// literal's width for integers, the UTF-8 bytes for strings.
pub open spec fn encode_spec(l: LiteralView) -> Seq<u8>
    recommends
        !(l is Float),
{
    match l {
        LiteralView::String(s) => encode_utf8(s),
        _ => le_bytes(twos(literal_int(l), width_of(literal_type(l))), width_of(literal_type(l))),
    }
}

/// Appends the `w` low bytes of `u`, least significant first.
fn push_le(out: &mut Vec<u8>, u: u64, w: usize)
    ensures
        final(out)@ == old(out)@ + le_bytes(u as nat, w as nat),
{
    let mut rest: u64 = u;
    let mut k: usize = 0;
    while k < w
        invariant
            k <= w,
            old(out)@ + le_bytes(u as nat, w as nat) == out@ + le_bytes(rest as nat, (w - k) as nat),
        decreases w - k,
    {
        let ghost before = out@;
        out.push((rest % 256) as u8);
        assert(le_bytes(rest as nat, (w - k) as nat) == seq![(rest % 256) as u8] + le_bytes(
            (rest / 256) as nat,
            (w - k - 1) as nat,
        ));
        assert(before + le_bytes(rest as nat, (w - k) as nat) =~= out@ + le_bytes(
            (rest / 256) as nat,
            (w - k - 1) as nat,
        ));
        rest = rest / 256;
        k = k + 1;
    }
    assert(out@ + le_bytes(rest as nat, 0) =~= out@);
}

/// Two's complement of `v` in `w` bytes, as an unsigned number.
fn twos_of(v: i64, w: usize) -> (r: u64)
    requires
        w == 1 || w == 2 || w == 4 || w == 8,
        -pow256(w as nat) <= 2 * v < pow256(w as nat),
    ensures
        r == twos(v as int, w as nat),
{
    proof {
        lemma_pow256_facts();
    }
    let top: u64 = if w == 1 {
        0xff
    } else if w == 2 {
        0xffff
    } else if w == 4 {
        0xffff_ffff
    } else {
        0xffff_ffff_ffff_ffff
    };
    assert(top + 1 == pow256(w as nat));
    if v < 0 {
        let m: u64 = (-(v + 1)) as u64;
        top - m
    } else {
        v as u64
    }
}

/// The bytes that a write of `lit` sends.
pub fn encode(lit: &Literal) -> (r: Vec<u8>)
    requires
        !(lit@ is Float),
    ensures
        r@ == encode_spec(lit@),
{
    proof {
        lemma_pow256_facts();
    }
    let mut out: Vec<u8> = Vec::new();
    match lit {
        Literal::Int8(v) => push_le(&mut out, twos_of(*v as i64, 1), 1),
        Literal::Int16(v) => push_le(&mut out, twos_of(*v as i64, 2), 2),
        Literal::Int32(v) => push_le(&mut out, twos_of(*v as i64, 4), 4),
        Literal::Int64(v) => push_le(&mut out, twos_of(*v, 8), 8),
        Literal::Float(_) => {},
        Literal::String(s) => {
            let b = s.as_str().as_bytes();
            let mut i: usize = 0;
            while i < b.len()
                invariant
                    i <= b@.len(),
                    out@ == b@.subrange(0, i as int),
                decreases b@.len() - i,
            {
                out.push(b[i]);
                i = i + 1;
                assert(out@ =~= b@.subrange(0, i as int));
            }
            assert(out@ =~= b@);
        },
    }
    assert(out@ =~= encode_spec(lit@));
    out
}

proof fn lemma_le_round_trip(u: nat, w: nat)
    requires
        u < pow256(w),
    ensures
        le_bytes(u, w).len() == w,
        le_value(le_bytes(u, w)) == u,
    decreases w,
{
    if w > 0 {
        let p = pow256((w - 1) as nat);
        assert(u / 256 < p) by (nonlinear_arith)
            requires
                u < 256 * p,
        ;
        lemma_le_round_trip(u / 256, (w - 1) as nat);
        let b = le_bytes(u, w);
        assert(b.drop_first() =~= le_bytes(u / 256, (w - 1) as nat));
        assert(u == u % 256 + 256 * (u / 256)) by (nonlinear_arith);
    }
}

/// Writing an integer or string literal and reading the bytes back with the
/// matching wire type gives the literal's own text: the decimal value for an
/// integer, the characters for a string. The encoding of an integer literal
/// is exactly as long as its width.
pub proof fn lemma_fixed_width_round_trip(lit: LiteralView)
    requires
        is_int_literal(lit) || lit is String,
    ensures
        is_int_literal(lit) ==> encode_spec(lit).len() == width_of(literal_type(lit)),
        is_int_literal(lit) ==> decode_spec(literal_type(lit), encode_spec(lit)) == Ok::<
            RenderedView,
            DecodeError,
        >(RenderedView::Text(int_text(literal_int(lit)))),
        lit matches LiteralView::String(s) ==> decode_spec(WireType::String, encode_spec(lit))
            == Ok::<RenderedView, DecodeError>(RenderedView::Text(s)),
{
    lemma_pow256_facts();
    if let LiteralView::String(s) = lit {
        encode_utf8_valid_utf8(s);
        encode_utf8_decode_utf8(s);
    } else {
        let t = literal_type(lit);
        let w = width_of(t);
        let v = literal_int(lit);
        let u = twos(v, w);
        assert(u < pow256(w));
        lemma_le_round_trip(u, w);
        let b = encode_spec(lit);
        assert(b.take(w as int) =~= b);
        assert(signed_value(u, w) == v);
    }
}

} // verus!
