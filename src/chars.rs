//! Character classes, spans and text building shared by the parser and the codec.
use vstd::prelude::*;

verus! {

/// A class of characters that the command grammar distinguishes.
#[derive(Clone, Copy, Debug, PartialEq, Eq, Structural)]
pub enum CharClass {
    /// ASCII letters and digits.
    Alnum,
    /// ASCII decimal digits.
    Decimal,
    /// ASCII hexadecimal digits, either case.
    Hex,
    /// Any character but a space.
    NotSpace,
}

pub open spec fn is_decimal_char(c: char) -> bool {
    '0' <= c && c <= '9'
}

pub open spec fn is_hex_char(c: char) -> bool {
    is_decimal_char(c) || ('a' <= c && c <= 'f') || ('A' <= c && c <= 'F')
}

pub open spec fn is_alnum_char(c: char) -> bool {
    is_decimal_char(c) || ('a' <= c && c <= 'z') || ('A' <= c && c <= 'Z')
}

pub open spec fn in_class(k: CharClass, c: char) -> bool {
    match k {
        CharClass::Alnum => is_alnum_char(c),
        CharClass::Decimal => is_decimal_char(c),
        CharClass::Hex => is_hex_char(c),
        CharClass::NotSpace => c != ' ',
    }
}

/// Length of the longest prefix of `s` whose characters are all of class `k`.
pub open spec fn span(s: Seq<char>, k: CharClass) -> nat
    decreases s.len(),
{
    if s.len() > 0 && in_class(k, s[0]) {
        1 + span(s.drop_first(), k)
    } else {
        0
    }
}

/// Value of an ASCII hexadecimal (or decimal) digit.
pub open spec fn digit_value(c: char) -> nat {
    if is_decimal_char(c) {
        (c as nat - '0' as nat) as nat
    } else if 'a' <= c && c <= 'f' {
        (c as nat - 'a' as nat + 10) as nat
    } else {
        (c as nat - 'A' as nat + 10) as nat
    }
}

/// Value of a run of digits in the given radix, most significant first.
pub open spec fn digits_value(s: Seq<char>, radix: nat) -> nat
    decreases s.len(),
{
    if s.len() == 0 {
        0
    } else {
        digits_value(s.drop_last(), radix) * radix + digit_value(s.last())
    }
}

/// The decimal digit character for `d < 10`.
pub open spec fn digit_char(d: nat) -> char {
    ((d + '0' as nat) as u32) as char
}

/// Decimal text of a natural number, without leading zeros.
pub open spec fn nat_text(n: nat) -> Seq<char>
    decreases n,
{
    if n < 10 {
        seq![digit_char(n)]
    } else {
        nat_text(n / 10).push(digit_char(n % 10))
    }
}

/// Decimal text of an integer, with a leading `-` when negative.
pub open spec fn int_text(i: int) -> Seq<char> {
    if i < 0 {
        seq!['-'] + nat_text((-i) as nat)
    } else {
        nat_text(i as nat)
    }
}

pub proof fn lemma_span(s: Seq<char>, k: CharClass, n: nat)
    requires
        n <= s.len(),
        forall|j: int| 0 <= j < n ==> in_class(k, #[trigger] s[j]),
        n == s.len() || !in_class(k, s[n as int]),
    ensures
        span(s, k) == n,
    decreases n,
{
    if n > 0 {
        let t = s.drop_first();
        assert forall|j: int| 0 <= j < n - 1 implies in_class(k, #[trigger] t[j]) by {
            assert(t[j] == s[j + 1]);
        }
        if n < s.len() {
            assert(t[n - 1] == s[n as int]);
        }
        lemma_span(t, k, (n - 1) as nat);
    }
}

pub proof fn lemma_span_bounds(s: Seq<char>, k: CharClass)
    ensures
        span(s, k) <= s.len(),
        forall|j: int| 0 <= j < span(s, k) ==> in_class(k, #[trigger] s[j]),
        span(s, k) == s.len() || !in_class(k, s[span(s, k) as int]),
    decreases s.len(),
{
    if s.len() > 0 && in_class(k, s[0]) {
        let t = s.drop_first();
        lemma_span_bounds(t, k);
        assert forall|j: int| 0 <= j < span(s, k) implies in_class(k, #[trigger] s[j]) by {
            if j > 0 {
                assert(s[j] == t[j - 1]);
            }
        }
        if span(s, k) < s.len() {
            assert(s[span(s, k) as int] == t[span(t, k) as int]);
        }
    }
}

pub fn char_in_class(k: CharClass, c: char) -> (r: bool)
    ensures
        r == in_class(k, c),
{
    match k {
        CharClass::Alnum => ('0' <= c && c <= '9') || ('a' <= c && c <= 'z') || ('A' <= c
            && c <= 'Z'),
        CharClass::Decimal => '0' <= c && c <= '9',
        CharClass::Hex => ('0' <= c && c <= '9') || ('a' <= c && c <= 'f') || ('A' <= c && c
            <= 'F'),
        CharClass::NotSpace => c != ' ',
    }
}

/// Length of the run of class `k` that starts at `start`.
pub fn span_from(s: &Vec<char>, start: usize, k: CharClass) -> (r: usize)
    requires
        start <= s@.len(),
    ensures
        r == span(s@.skip(start as int), k),
        start + r <= s@.len(),
{
    let mut i: usize = start;
    while i < s.len() && char_in_class(k, s[i])
        invariant
            start <= i <= s@.len(),
            forall|j: int| start <= j < i ==> in_class(k, #[trigger] s@[j]),
        decreases s@.len() - i,
    {
        i = i + 1;
    }
    proof {
        let t = s@.skip(start as int);
        assert forall|j: int| 0 <= j < i - start implies in_class(k, #[trigger] t[j]) by {
            assert(t[j] == s@[start + j]);
        }
        if i < s@.len() {
            assert(t[i - start] == s@[i as int]);
        }
        lemma_span(t, k, (i - start) as nat);
    }
    i - start
}

/// The characters of `s`, in order.
pub fn chars_of(s: &str) -> (r: Vec<char>)
    ensures
        r@ == s@,
{
    let n = s.unicode_len();
    let mut out: Vec<char> = Vec::new();
    let mut i: usize = 0;
    while i < n
        invariant
            n == s@.len(),
            i <= n,
            out@ == s@.subrange(0, i as int),
        decreases n - i,
    {
        out.push(s.get_char(i));
        i = i + 1;
        assert(out@ =~= s@.subrange(0, i as int));
    }
    assert(out@ =~= s@);
    out
}

/// Relies on `FromIterator<&char>` for `String`: the string holds exactly the
/// given characters, in order.
#[verifier::external_body]
pub fn string_from_chars(v: &Vec<char>) -> (r: String)
    ensures
        r@ == v@,
{
    v.iter().collect()
}

/// Appends the decimal text of `n` to `out`.
pub fn push_nat_text(out: &mut Vec<char>, n: u64)
    ensures
        final(out)@ == old(out)@ + nat_text(n as nat),
    decreases n,
{
    if n >= 10 {
        push_nat_text(out, n / 10);
    }
    let d: u64 = n % 10;
    let c: char = ((d as u8) + 48u8) as char;
    assert(c == digit_char(d as nat));
    out.push(c);
    assert(nat_text(n as nat) == if n < 10 {
        seq![digit_char(n as nat)]
    } else {
        nat_text((n / 10) as nat).push(digit_char((n % 10) as nat))
    });
    assert(final(out)@ =~= old(out)@ + nat_text(n as nat));
}

/// Appends the decimal text of the integer whose magnitude is `mag`,
/// negated when `negative` holds.
pub fn push_int_text(out: &mut Vec<char>, negative: bool, mag: u64)
    ensures
        final(out)@ == old(out)@ + int_text(if negative { -(mag as int) } else { mag as int }),
{
    if negative && mag > 0 {
        out.push('-');
        push_nat_text(out, mag);
        assert(final(out)@ =~= old(out)@ + int_text(-(mag as int)));
    } else {
        push_nat_text(out, mag);
    }
}

/// The characters of `s[from..to]`.
pub fn slice_chars(s: &Vec<char>, from: usize, to: usize) -> (r: Vec<char>)
    requires
        from <= to <= s@.len(),
    ensures
        r@ == s@.subrange(from as int, to as int),
{
    let mut out: Vec<char> = Vec::new();
    let mut i: usize = from;
    while i < to
        invariant
            from <= i <= to <= s@.len(),
            out@ == s@.subrange(from as int, i as int),
        decreases to - i,
    {
        out.push(s[i]);
        i = i + 1;
        assert(out@ =~= s@.subrange(from as int, i as int));
    }
    out
}

pub fn hex_digit_of(c: char) -> (r: u64)
    requires
        is_hex_char(c),
    ensures
        r == digit_value(c),
        r < 16,
{
    if '0' <= c && c <= '9' {
        (c as u64) - 48
    } else if 'a' <= c && c <= 'f' {
        (c as u64) - 87
    } else {
        (c as u64) - 55
    }
}

pub proof fn lemma_digits_prefix(x: Seq<char>, k: int, radix: nat)
    requires
        0 <= k <= x.len(),
        radix >= 1,
    ensures
        digits_value(x.take(k), radix) <= digits_value(x, radix),
    decreases x.len() - k,
{
    if k < x.len() {
        let y = x.drop_last();
        assert(y.take(k) =~= x.take(k));
        lemma_digits_prefix(y, k, radix);
        let a = digits_value(y, radix);
        assert(a <= a * radix + digit_value(x.last())) by (nonlinear_arith)
            requires
                radix >= 1,
        ;
    } else {
        assert(x.take(k) =~= x);
    }
}

/// Value of the digits `s[from..to]` in `radix`, when it is at most `limit`.
pub fn digits_value_in(s: &Vec<char>, from: usize, to: usize, radix: u64, limit: u64) -> (r:
    Option<u64>)
    requires
        from <= to <= s@.len(),
        radix == 10 || radix == 16,
        limit < 0x8000_0000_0000_0000,
        forall|j: int| from <= j < to ==> is_hex_char(#[trigger] s@[j]),
    ensures
        match r {
            Some(x) => x == digits_value(s@.subrange(from as int, to as int), radix as nat) && x
                <= limit,
            None => digits_value(s@.subrange(from as int, to as int), radix as nat) > limit,
        },
{
    let mut acc: u64 = 0;
    let mut i: usize = from;
    assert(s@.subrange(from as int, from as int).len() == 0);
    while i < to
        invariant
            from <= i <= to <= s@.len(),
            radix == 10 || radix == 16,
            limit < 0x8000_0000_0000_0000,
            forall|j: int| from <= j < to ==> is_hex_char(#[trigger] s@[j]),
            acc == digits_value(s@.subrange(from as int, i as int), radix as nat),
            acc <= limit,
        decreases to - i,
    {
        let d = hex_digit_of(s[i]);
        let ghost x = s@.subrange(from as int, (i + 1) as int);
        assert(x.drop_last() =~= s@.subrange(from as int, i as int));
        assert(digits_value(x, radix as nat) == acc * radix + d);
        if d > limit || acc > (limit - d) / radix {
            proof {
                let whole = s@.subrange(from as int, to as int);
                assert(whole.take(i + 1 - from) =~= x);
                lemma_digits_prefix(whole, i + 1 - from, radix as nat);
                if d <= limit {
                    assert(acc * radix + d > limit) by (nonlinear_arith)
                        requires
                            acc > (limit - d) as int / radix as int,
                            radix >= 1,
                            d <= limit,
                    ;
                }
            }
            return None;
        }
        assert(acc * radix + d <= limit) by (nonlinear_arith)
            requires
                acc <= (limit - d) as int / radix as int,
                radix >= 1,
                d <= limit,
        ;
        acc = acc * radix + d;
        i = i + 1;
    }
    Some(acc)
}

} // verus!
