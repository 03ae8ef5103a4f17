//! Read and write commands, and the parser that turns a line of text into one.
//!
//! ```text
//! command      ::= "r " name " " object_index " " type_tag
//!                | "w " name " " object_index " " value
//! name         ::= [A-Za-z0-9]+
//! object_index ::= "0x" hex_digit+ ":" decimal_digit{1,3}
//! ```
//! The whole line must match. A known type tag, or a complete string value,
//! followed by more text is not a command at all (`UnrecognizedCommand`).
//! The address may have any number of hex digits but must fit 16 bits; the
//! sub-index must fit 8 bits.
use vstd::prelude::*;

use crate::chars::{
    chars_of, digits_value, digits_value_in, is_hex_char, lemma_span_bounds, slice_chars, span,
    span_from, string_from_chars, CharClass,
};
use crate::codec::{
    decode, decoded_as, encode, encode_spec, DecodeError, Literal, LiteralView, Rendered,
};
use crate::literal::{literal_of, literal_spec};
use crate::wire_type::{resolve_span, resolve_spec, ParseError, WireType};

verus! {

/// One entry of a device's object dictionary.
#[derive(Clone, Copy, Debug, PartialEq, Eq, Structural)]
pub struct ObjectIndex {
    pub address: u16,
    pub sub_index: u8,
}

/// A request to read one dictionary entry and show it as a given type.
#[derive(Clone, Debug, PartialEq, Eq)]
pub struct ReadCommand {
    name: String,
    object: ObjectIndex,
    data_type: WireType,
}

/// A request to write a value to one dictionary entry.
#[derive(Clone, Debug, PartialEq, Eq)]
pub struct WriteCommand {
    name: String,
    object: ObjectIndex,
    value: Literal,
}

#[derive(Clone, Debug, PartialEq, Eq)]
pub enum Command {
    Read(ReadCommand),
    Write(WriteCommand),
}

/// The mathematical content of a [`Command`].
pub enum CommandView {
    Read(Seq<char>, ObjectIndex, WireType),
    Write(Seq<char>, ObjectIndex, LiteralView),
}

impl View for ReadCommand {
    /// The device name, the entry, and the type to read it as.
    type V = (Seq<char>, ObjectIndex, WireType);

    closed spec fn view(&self) -> (Seq<char>, ObjectIndex, WireType) {
        (self.name@, self.object, self.data_type)
    }
}

impl View for WriteCommand {
    /// The device name, the entry, and the value to write.
    type V = (Seq<char>, ObjectIndex, LiteralView);

    closed spec fn view(&self) -> (Seq<char>, ObjectIndex, LiteralView) {
        (self.name@, self.object, self.value@)
    }
}

impl View for Command {
    type V = CommandView;

    open spec fn view(&self) -> CommandView {
        match self {
            Command::Read(r) => CommandView::Read(r@.0, r@.1, r@.2),
            Command::Write(w) => CommandView::Write(w@.0, w@.1, w@.2),
        }
    }
}

impl ReadCommand {
    /// The name of the device to read from.
    pub fn name(&self) -> (r: &str)
        ensures
            r@ == self@.0,
    {
        self.name.as_str()
    }

    /// The entry's address and sub-index.
    pub fn object(&self) -> (r: (u16, u8))
        ensures
            r == (self@.1.address, self@.1.sub_index),
    {
        (self.object.address, self.object.sub_index)
    }

    /// The type that the entry is read as.
    pub fn data_type(&self) -> (r: WireType)
        ensures
            r == self@.2,
    {
        self.data_type
    }

    /// Renders the bytes read from the entry according to the command's type.
    pub fn format(&self, value: &[u8]) -> (r: Result<Rendered, DecodeError>)
        ensures
            decoded_as(r, self@.2, value@),
    {
        decode(self.data_type, value)
    }
}

impl WriteCommand {
    /// The name of the device to write to.
    pub fn name(&self) -> (r: &str)
        ensures
            r@ == self@.0,
    {
        self.name.as_str()
    }

    /// The entry's address and sub-index.
    pub fn object(&self) -> (r: (u16, u8))
        ensures
            r == (self@.1.address, self@.1.sub_index),
    {
        (self.object.address, self.object.sub_index)
    }

    /// The value to write.
    pub fn value(&self) -> (r: &Literal)
        ensures
            r@ == self@.2,
    {
        &self.value
    }

    /// The bytes that the write sends. A floating-point value is turned into
    /// bytes by the front end.
    pub fn to_le_bytes(&self) -> (r: Vec<u8>)
        requires
            !(self@.2 is Float),
        ensures
            r@ == encode_spec(self@.2),
    {
        encode(&self.value)
    }
}

/// The object index that the token `t` writes, if it is well formed.
pub open spec fn object_index_spec(t: Seq<char>) -> Option<ObjectIndex> {
    let h = span(t.skip(2), CharClass::Hex);
    let c = 2 + h;
    if t.len() >= 2 && t[0] == '0' && t[1] == 'x' && h >= 1 && c < t.len() && t[c as int]
        == ':' && 1 <= t.len() - (c + 1) <= 3 && span(t.skip((c + 1) as int), CharClass::Decimal) == t.len()
        - (c + 1) {
        let a = digits_value(t.subrange(2, c as int), 16);
        let s = digits_value(t.subrange((c + 1) as int, t.len() as int), 10);
        if a <= 0xffff && s <= 0xff {
            Some(ObjectIndex { address: a as u16, sub_index: s as u8 })
        } else {
            None
        }
    } else {
        None
    }
}

/// Length of the device name that starts the command line `s`.
pub open spec fn name_len(s: Seq<char>) -> nat {
    span(s.skip(2), CharClass::Alnum)
}

/// Where the object index token starts.
pub open spec fn object_start(s: Seq<char>) -> nat {
    3 + name_len(s)
}

/// Where the object index token ends.
pub open spec fn object_end(s: Seq<char>) -> nat {
    object_start(s) + span(s.skip(object_start(s) as int), CharClass::NotSpace)
}

/// The line starts with `r ` or `w `, a name, and a space-terminated object
/// index token.
pub open spec fn has_command_shape(s: Seq<char>) -> bool {
    &&& s.len() >= 2
    &&& s[0] == 'r' || s[0] == 'w'
    &&& s[1] == ' '
    &&& name_len(s) >= 1
    &&& 2 + name_len(s) < s.len()
    &&& s[(2 + name_len(s)) as int] == ' '
    &&& object_end(s) < s.len()
}

/// What parsing the line `s` gives.
pub open spec fn parse_spec(s: Seq<char>) -> Result<CommandView, ParseError> {
    if !has_command_shape(s) {
        Err(ParseError::UnrecognizedCommand)
    } else {
        let name = s.subrange(2, (2 + name_len(s)) as int);
        let rest = s.subrange((object_end(s) + 1) as int, s.len() as int);
        match object_index_spec(s.subrange(object_start(s) as int, object_end(s) as int)) {
            None => Err(ParseError::MalformedObjectIndex),
            Some(o) => if s[0] == 'r' {
                let tag_len = span(rest, CharClass::NotSpace);
                match resolve_spec(rest.take(tag_len as int)) {
                    Some(t) => if tag_len == rest.len() {
                        Ok(CommandView::Read(name, o, t))
                    } else {
                        Err(ParseError::UnrecognizedCommand)
                    },
                    None => Err(ParseError::UnknownTypeTag),
                }
            } else {
                match literal_spec(rest) {
                    Ok(l) => Ok(CommandView::Write(name, o, l)),
                    Err(e) => Err(e),
                }
            },
        }
    }
}

/// The object index written by the token `t`.
pub fn object_index_of(t: &Vec<char>) -> (r: Option<ObjectIndex>)
    ensures
        r == object_index_spec(t@),
{
    if t.len() < 2 || t[0] != '0' || t[1] != 'x' {
        return None;
    }
    let h = span_from(t, 2, CharClass::Hex);
    let c = 2 + h;
    if h < 1 || c >= t.len() || t[c] != ':' {
        return None;
    }
    let dl = t.len() - (c + 1);
    if dl < 1 || dl > 3 {
        return None;
    }
    if span_from(t, c + 1, CharClass::Decimal) != dl {
        return None;
    }
    proof {
        lemma_span_bounds(t@.skip(2), CharClass::Hex);
        lemma_span_bounds(t@.skip(c + 1), CharClass::Decimal);
        assert forall|j: int| 2 <= j < c implies is_hex_char(#[trigger] t@[j]) by {
            assert(t@[j] == t@.skip(2)[j - 2]);
        }
        assert forall|j: int| c + 1 <= j < t@.len() implies is_hex_char(#[trigger] t@[j]) by {
            assert(t@[j] == t@.skip(c + 1)[j - c - 1]);
        }
    }
    let a = digits_value_in(t, 2, c, 16, 0xffff);
    let s = digits_value_in(t, c + 1, t.len(), 10, 0xff);
    match (a, s) {
        (Some(a), Some(s)) => Some(ObjectIndex { address: a as u16, sub_index: s as u8 }),
        _ => None,
    }
}

impl Command {
    /// Parses one command line (without its line terminator).
    pub fn parse(line: &str) -> (r: Result<Command, ParseError>)
        ensures
            match r {
                Ok(c) => parse_spec(line@) == Ok::<CommandView, ParseError>(c@),
                Err(e) => parse_spec(line@) == Err::<CommandView, ParseError>(e),
            },
    {
        let s = chars_of(line);
        let len = s.len();
        if len < 2 || (s[0] != 'r' && s[0] != 'w') || s[1] != ' ' {
            return Err(ParseError::UnrecognizedCommand);
        }
        let n = span_from(&s, 2, CharClass::Alnum);
        if n < 1 || 2 + n >= len || s[2 + n] != ' ' {
            return Err(ParseError::UnrecognizedCommand);
        }
        let a0 = 3 + n;
        let k = span_from(&s, a0, CharClass::NotSpace);
        if a0 + k >= len {
            return Err(ParseError::UnrecognizedCommand);
        }
        let token = slice_chars(&s, a0, a0 + k);
        let object = match object_index_of(&token) {
            Some(o) => o,
            None => {
                return Err(ParseError::MalformedObjectIndex);
            },
        };
        let name = string_from_chars(&slice_chars(&s, 2, 2 + n));
        if s[0] == 'r' {
            let start = a0 + k + 1;
            let tag_len = span_from(&s, start, CharClass::NotSpace);
            proof {
                let rest = s@.subrange(start as int, len as int);
                assert(rest =~= s@.skip(start as int));
                assert(rest.take(tag_len as int) =~= s@.subrange(
                    start as int,
                    (start + tag_len) as int,
                ));
            }
            match resolve_span(&s, start, start + tag_len) {
                Some(data_type) => if start + tag_len == len {
                    Ok(Command::Read(ReadCommand { name, object, data_type }))
                } else {
                    Err(ParseError::UnrecognizedCommand)
                },
                None => Err(ParseError::UnknownTypeTag),
            }
        } else {
            let rest = slice_chars(&s, a0 + k + 1, len);
            match literal_of(&rest) {
                Ok(value) => Ok(Command::Write(WriteCommand { name, object, value })),
                Err(e) => Err(e),
            }
        }
    }
}

impl core::str::FromStr for Command {
    type Err = ParseError;

    /// Parses one command line, as [`Command::parse`] does.
    fn from_str(line: &str) -> (r: Result<Command, ParseError>)
        ensures
            match r {
                Ok(c) => parse_spec(line@) == Ok::<CommandView, ParseError>(c@),
                Err(e) => parse_spec(line@) == Err::<CommandView, ParseError>(e),
            },
    {
        Command::parse(line)
    }
}

} // verus!
