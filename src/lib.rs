//! Command language and little-endian value codec for reading and writing
//! entries of a field-bus device's object dictionary.

pub mod chars;
pub mod codec;
pub mod command;
pub mod listing;
pub mod literal;
pub mod wire_type;

pub use codec::{decode, encode, DecodeError, Literal, Rendered};
pub use command::{Command, ObjectIndex, ReadCommand, WriteCommand};
pub use listing::{escape, fmt_identity, DeviceIdentity, SubdeviceData};
pub use wire_type::{resolve, ParseError, WireType};
