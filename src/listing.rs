//! Text of the device listing.
use vstd::prelude::*;

use crate::chars::{chars_of, nat_text, push_nat_text, string_from_chars};

verus! {

pub open spec fn is_blank(c: char) -> bool {
    c == ' ' || c == '\t' || c == '\n' || c == '\r'
}

/// `c` as it stands inside a quoted field: quotes and backslashes get a
/// backslash before them.
pub open spec fn quoted_char(c: char) -> Seq<char> {
    if c == '"' || c == '\\' {
        seq!['\\', c]
    } else {
        seq![c]
    }
}

pub open spec fn quoted_body(s: Seq<char>) -> Seq<char>
    decreases s.len(),
{
    if s.len() == 0 {
        Seq::empty()
    } else {
        quoted_body(s.drop_last()) + quoted_char(s.last())
    }
}

/// A field with no blank stands as it is; any other is put in double quotes,
/// with its quotes and backslashes escaped.
pub open spec fn escape_spec(s: Seq<char>) -> Seq<char> {
    if exists|i: int| 0 <= i < s.len() && is_blank(#[trigger] s[i]) {
        seq!['"'] + quoted_body(s) + seq!['"']
    } else {
        s
    }
}

/// Makes `s` readable as one space-separated field.
pub fn escape(s: &str) -> (r: String)
    ensures
        r@ == escape_spec(s@),
{
    let v = chars_of(s);
    let mut blank = false;
    let mut out: Vec<char> = vec!['"'];
    let mut i: usize = 0;
    while i < v.len()
        invariant
            i <= v@.len(),
            out@ == seq!['"'] + quoted_body(v@.subrange(0, i as int)),
            blank == exists|j: int| 0 <= j < i && is_blank(#[trigger] v@[j]),
        decreases v@.len() - i,
    {
        let c = v[i];
        if c == ' ' || c == '\t' || c == '\n' || c == '\r' {
            blank = true;
        }
        if c == '"' || c == '\\' {
            out.push('\\');
        }
        out.push(c);
        let ghost p = v@.subrange(0, i + 1);
        assert(p.drop_last() =~= v@.subrange(0, i as int));
        i = i + 1;
        assert(out@ =~= seq!['"'] + quoted_body(v@.subrange(0, i as int)));
        assert(blank == exists|j: int| 0 <= j < i && is_blank(#[trigger] v@[j])) by {
            if is_blank(c) {
                assert(is_blank(v@[i - 1]));
            }
        }
    }
    assert(v@.subrange(0, i as int) =~= v@);
    if blank {
        out.push('"');
        string_from_chars(&out)
    } else {
        string_from_chars(&v)
    }
}

/// Identity words that a device reports.
#[derive(Clone, Copy, Debug, PartialEq, Eq, Structural)]
pub struct DeviceIdentity {
    pub vendor_id: u32,
    pub product_id: u32,
    pub revision: u32,
    pub serial: u32,
}

/// What the listing shows of one device; the optional parts are shown only
/// when they were gathered.
#[derive(Clone, Debug, PartialEq, Eq)]
pub struct SubdeviceData {
    pub name: String,
    pub address: u16,
    pub description: Option<String>,
    pub identity: Option<DeviceIdentity>,
    pub alias_address: Option<u16>,
    pub propagation_delay: Option<u32>,
    pub input_len: Option<usize>,
    pub output_len: Option<usize>,
}

pub open spec fn hex_char(d: nat) -> char {
    if d < 10 {
        ((d + '0' as nat) as u32) as char
    } else {
        ((d - 10 + 'a' as nat) as u32) as char
    }
}

/// The `digits` low hexadecimal digits of `n`, lower case, most significant first.
pub open spec fn hex_text(n: nat, digits: nat) -> Seq<char>
    decreases digits,
{
    if digits == 0 {
        Seq::empty()
    } else {
        hex_text(n / 16, (digits - 1) as nat).push(hex_char(n % 16))
    }
}

/// `0x` and `digits` hexadecimal digits.
pub open spec fn prefixed_hex(n: nat, digits: nat) -> Seq<char> {
    seq!['0', 'x'] + hex_text(n, digits)
}

pub open spec fn identity_text(i: DeviceIdentity) -> Seq<char> {
    seq!['v', 'e', 'n', 'd', 'o', 'r', ':'] + prefixed_hex(i.vendor_id as nat, 8) + seq![
        ' ',
        'p',
        'r',
        'o',
        'd',
        'u',
        'c',
        't',
        ':',
    ] + prefixed_hex(i.product_id as nat, 8) + seq![' ', 'r', 'e', 'v', ':'] + nat_text(
        i.revision as nat,
    ) + seq![' ', 's', 'e', 'r', 'i', 'a', 'l', ':'] + nat_text(i.serial as nat)
}

pub open spec fn description_part(o: Option<String>) -> Seq<char> {
    match o {
        Some(s) => seq![' ', 'd', 'e', 's', 'c', 'r', 'i', 'p', 't', 'i', 'o', 'n', ':']
            + escape_spec(s@),
        None => Seq::empty(),
    }
}

pub open spec fn identity_part(o: Option<DeviceIdentity>) -> Seq<char> {
    match o {
        Some(i) => seq![' '] + identity_text(i),
        None => Seq::empty(),
    }
}

pub open spec fn alias_part(o: Option<u16>) -> Seq<char> {
    match o {
        Some(a) => seq![' ', 'a', 'l', 'i', 'a', 's', ':'] + prefixed_hex(a as nat, 4),
        None => Seq::empty(),
    }
}

pub open spec fn delay_part(o: Option<u32>) -> Seq<char> {
    match o {
        Some(t) => seq![' ', 'd', 'e', 'l', 'a', 'y', ':'] + nat_text(t as nat) + seq!['n', 's'],
        None => Seq::empty(),
    }
}

/// ` <label>:<n>B`, or nothing.
pub open spec fn length_part(label: Seq<char>, o: Option<usize>) -> Seq<char> {
    match o {
        Some(n) => seq![' '] + label + seq![':'] + nat_text(n as nat) + seq!['B'],
        None => Seq::empty(),
    }
}

/// The listing line of a device: address and name, then each gathered part.
pub open spec fn describe_spec(d: SubdeviceData) -> Seq<char> {
    prefixed_hex(d.address as nat, 4) + seq![' '] + d.name@ + description_part(d.description)
        + identity_part(d.identity) + alias_part(d.alias_address) + delay_part(
        d.propagation_delay,
    ) + length_part(seq!['i', 'n'], d.input_len) + length_part(seq!['o', 'u', 't'], d.output_len)
}

/// Appends the `digits` low hexadecimal digits of `n`.
fn push_hex(out: &mut Vec<char>, n: u64, digits: usize)
    ensures
        final(out)@ == old(out)@ + hex_text(n as nat, digits as nat),
    decreases digits,
{
    if digits == 0 {
        assert(old(out)@ + hex_text(n as nat, 0) =~= old(out)@);
        return;
    }
    push_hex(out, n / 16, digits - 1);
    let d: u64 = n % 16;
    let c: char = if d < 10 {
        ((d as u8) + 48u8) as char
    } else {
        ((d as u8) + 87u8) as char
    };
    assert(c == hex_char(d as nat));
    out.push(c);
    assert(final(out)@ =~= old(out)@ + hex_text(n as nat, digits as nat));
}

fn push_prefixed_hex(out: &mut Vec<char>, n: u64, digits: usize)
    ensures
        final(out)@ == old(out)@ + prefixed_hex(n as nat, digits as nat),
{
    out.push('0');
    out.push('x');
    push_hex(out, n, digits);
    assert(final(out)@ =~= old(out)@ + prefixed_hex(n as nat, digits as nat));
}

fn push_str(out: &mut Vec<char>, s: &str)
    ensures
        final(out)@ == old(out)@ + s@,
{
    let v = chars_of(s);
    let mut i: usize = 0;
    while i < v.len()
        invariant
            i <= v@.len(),
            v@ == s@,
            out@ == old(out)@ + v@.subrange(0, i as int),
        decreases v@.len() - i,
    {
        out.push(v[i]);
        i = i + 1;
        assert(out@ =~= old(out)@ + v@.subrange(0, i as int));
    }
    assert(v@.subrange(0, i as int) =~= v@);
}

fn push_identity(out: &mut Vec<char>, i: DeviceIdentity)
    ensures
        final(out)@ == old(out)@ + identity_text(i),
{
    push_str(out, "vendor:");
    push_prefixed_hex(out, i.vendor_id as u64, 8);
    push_str(out, " product:");
    push_prefixed_hex(out, i.product_id as u64, 8);
    push_str(out, " rev:");
    push_nat_text(out, i.revision as u64);
    push_str(out, " serial:");
    push_nat_text(out, i.serial as u64);
    proof {
        reveal_strlit("vendor:");
        reveal_strlit(" product:");
        reveal_strlit(" rev:");
        reveal_strlit(" serial:");
    }
    assert(final(out)@ =~= old(out)@ + identity_text(i));
}

/// The identity words as the listing shows them.
pub fn fmt_identity(identity: DeviceIdentity) -> (r: String)
    ensures
        r@ == identity_text(identity),
{
    let mut out: Vec<char> = Vec::new();
    push_identity(&mut out, identity);
    assert(out@ =~= identity_text(identity));
    string_from_chars(&out)
}

impl SubdeviceData {
    /// A device known by name and address only.
    pub fn new(name: &str, address: u16) -> (r: Self)
        ensures
            r.name@ == name@,
            r.address == address,
            r.description is None,
            r.identity is None,
            r.alias_address is None,
            r.propagation_delay is None,
            r.input_len is None,
            r.output_len is None,
    {
        SubdeviceData {
            name: string_from_chars(&chars_of(name)),
            address,
            description: None,
            identity: None,
            alias_address: None,
            propagation_delay: None,
            input_len: None,
            output_len: None,
        }
    }

    /// The device's line in the listing.
    pub fn describe(&self) -> (r: String)
        ensures
            r@ == describe_spec(*self),
    {
        let mut out: Vec<char> = Vec::new();
        push_prefixed_hex(&mut out, self.address as u64, 4);
        out.push(' ');
        push_str(&mut out, self.name.as_str());
        push_description(&mut out, &self.description);
        push_identity_part(&mut out, self.identity);
        push_alias(&mut out, self.alias_address);
        push_delay(&mut out, self.propagation_delay);
        push_length(&mut out, "in", self.input_len);
        push_length(&mut out, "out", self.output_len);
        proof {
            reveal_strlit("in");
            reveal_strlit("out");
        }
        assert(out@ =~= describe_spec(*self));
        string_from_chars(&out)
    }
}

fn push_description(out: &mut Vec<char>, o: &Option<String>)
    ensures
        final(out)@ == old(out)@ + description_part(*o),
{
    if let Some(d) = o {
        push_str(out, " description:");
        let e = escape(d.as_str());
        push_str(out, e.as_str());
        proof {
            reveal_strlit(" description:");
        }
    }
    assert(final(out)@ =~= old(out)@ + description_part(*o));
}

fn push_identity_part(out: &mut Vec<char>, o: Option<DeviceIdentity>)
    ensures
        final(out)@ == old(out)@ + identity_part(o),
{
    if let Some(i) = o {
        out.push(' ');
        push_identity(out, i);
    }
    assert(final(out)@ =~= old(out)@ + identity_part(o));
}

fn push_alias(out: &mut Vec<char>, o: Option<u16>)
    ensures
        final(out)@ == old(out)@ + alias_part(o),
{
    if let Some(a) = o {
        push_str(out, " alias:");
        push_prefixed_hex(out, a as u64, 4);
        proof {
            reveal_strlit(" alias:");
        }
    }
    assert(final(out)@ =~= old(out)@ + alias_part(o));
}

fn push_delay(out: &mut Vec<char>, o: Option<u32>)
    ensures
        final(out)@ == old(out)@ + delay_part(o),
{
    if let Some(t) = o {
        push_str(out, " delay:");
        push_nat_text(out, t as u64);
        push_str(out, "ns");
        proof {
            reveal_strlit(" delay:");
            reveal_strlit("ns");
        }
    }
    assert(final(out)@ =~= old(out)@ + delay_part(o));
}

fn push_length(out: &mut Vec<char>, label: &str, o: Option<usize>)
    ensures
        final(out)@ == old(out)@ + length_part(label@, o),
{
    if let Some(n) = o {
        out.push(' ');
        push_str(out, label);
        out.push(':');
        push_nat_text(out, n as u64);
        out.push('B');
    }
    assert(final(out)@ =~= old(out)@ + length_part(label@, o));
}

} // verus!
