use ecat_utils::{
    decode, encode, escape, resolve, Command, DecodeError, Literal, ParseError, Rendered,
    WireType,
};

fn text(s: &str) -> Result<Rendered, DecodeError> {
    Ok(Rendered::Text(s.to_string()))
}

fn write_value(line: &str) -> Result<Literal, ParseError> {
    match Command::parse(line)? {
        Command::Write(w) => Ok(w.value().clone()),
        Command::Read(_) => panic!("expected a write command"),
    }
}

#[test]
fn parse_read_string_command() {
    let Ok(Command::Read(read)) = Command::parse("r EK1100 0x1008:0 String") else {
        panic!("expected a read command");
    };
    assert_eq!(read.name(), "EK1100");
    assert_eq!(read.object(), (0x1008, 0));
    assert_eq!(read.data_type(), WireType::String);
}

#[test]
fn parse_write_int8_command() {
    let Ok(Command::Write(write)) = Command::parse("w EL1008 0x7000:1 5 i8") else {
        panic!("expected a write command");
    };
    assert_eq!(write.name(), "EL1008");
    assert_eq!(write.object(), (0x7000, 1));
    assert_eq!(write.value(), &Literal::Int8(5));
    assert_eq!(write.to_le_bytes(), vec![0x05]);
}

#[test]
fn from_str_matches_parse() {
    let parsed: Result<Command, ParseError> = "r EK1100 0x1008:0 u16".parse();
    assert_eq!(parsed, Command::parse("r EK1100 0x1008:0 u16"));
    assert!(parsed.is_ok());
}

#[test]
fn from_str_scenarios() {
    let Ok(Command::Read(read)) = "r EK1100 0x1008:0 String".parse::<Command>() else {
        panic!("expected a read command");
    };
    assert_eq!(read.name(), "EK1100");
    assert_eq!(read.object(), (0x1008, 0));
    assert_eq!(read.data_type(), WireType::String);
    let Ok(Command::Write(write)) = "w EL1008 0x7000:1 5 i8".parse::<Command>() else {
        panic!("expected a write command");
    };
    assert_eq!(write.object(), (0x7000, 1));
    assert_eq!(write.value(), &Literal::Int8(5));
    assert_eq!(
        "r EK1100 0x1008:0".parse::<Command>(),
        Err(ParseError::UnrecognizedCommand)
    );
    assert_eq!(
        "r EK1100 0x1008:0 u8 extra".parse::<Command>(),
        Err(ParseError::UnrecognizedCommand)
    );
    assert_eq!(
        "r D1 0x10000:0 u8".parse::<Command>(),
        Err(ParseError::MalformedObjectIndex)
    );
    assert_eq!(
        "q D1 0x1000:0 u8".parse::<Command>(),
        Err(ParseError::UnrecognizedCommand)
    );
}

#[test]
fn encode_int32_minus_one() {
    assert_eq!(encode(&Literal::Int32(-1)), vec![0xFF, 0xFF, 0xFF, 0xFF]);
}

#[test]
fn encode_each_width_little_endian() {
    assert_eq!(encode(&Literal::Int8(-128)), vec![0x80]);
    assert_eq!(encode(&Literal::Int16(0x1234)), vec![0x34, 0x12]);
    assert_eq!(
        encode(&Literal::Int64(i64::MIN)),
        vec![0, 0, 0, 0, 0, 0, 0, 0x80]
    );
    assert_eq!(encode(&Literal::String("hé".to_string())), vec![0x68, 0xC3, 0xA9]);
}

#[test]
fn decode_bool() {
    assert_eq!(decode(WireType::Bool, &[0x00]), text("false"));
    assert_eq!(decode(WireType::Bool, &[0x07]), text("true"));
    assert_eq!(decode(WireType::Bool, &[]), Err(DecodeError::ShortBuffer));
}

#[test]
fn decode_array_u16() {
    assert_eq!(decode(WireType::ArrayU16, &[0x01, 0x00, 0x02, 0x00]), text("[1, 2]"));
    assert_eq!(
        decode(WireType::ArrayU16, &[0x01]),
        Err(DecodeError::ArrayLengthMisaligned)
    );
}

#[test]
fn decode_arrays_of_other_widths() {
    assert_eq!(decode(WireType::ArrayI8, &[0xFF, 0x01]), text("[-1, 1]"));
    assert_eq!(decode(WireType::ArrayU8, &[]), text("[]"));
    assert_eq!(
        decode(WireType::ArrayI32, &[0xFE, 0xFF, 0xFF, 0xFF, 0x05, 0, 0, 0]),
        text("[-2, 5]")
    );
    assert_eq!(
        decode(WireType::ArrayU64, &[0; 7]),
        Err(DecodeError::ArrayLengthMisaligned)
    );
}

#[test]
fn decode_scalars() {
    assert_eq!(decode(WireType::U8, &[0xFF, 0x01]), text("255"));
    assert_eq!(decode(WireType::I8, &[0x80]), text("-128"));
    assert_eq!(decode(WireType::U16, &[0x34, 0x12]), text("4660"));
    assert_eq!(decode(WireType::I16, &[0x00, 0x80]), text("-32768"));
    assert_eq!(decode(WireType::U32, &[0x78, 0x56, 0x34, 0x12]), text("305419896"));
    assert_eq!(decode(WireType::U64, &[0xFF; 8]), text("18446744073709551615"));
    assert_eq!(decode(WireType::I64, &[0xFF; 8]), text("-1"));
    assert_eq!(
        decode(WireType::I64, &[0, 0, 0, 0, 0, 0, 0, 0x80]),
        text("-9223372036854775808")
    );
    assert_eq!(decode(WireType::U16, &[0x01]), Err(DecodeError::ShortBuffer));
    assert_eq!(decode(WireType::I32, &[1, 2, 3]), Err(DecodeError::ShortBuffer));
}

#[test]
fn decode_floats_as_bits() {
    assert_eq!(
        decode(WireType::F32, &[0x00, 0x00, 0x80, 0x3F]),
        Ok(Rendered::Float32(0x3F80_0000))
    );
    assert_eq!(
        decode(WireType::F64, &[0, 0, 0, 0, 0, 0, 0xF0, 0x3F]),
        Ok(Rendered::Float64(0x3FF0_0000_0000_0000))
    );
    assert_eq!(f64::from_bits(0x3FF0_0000_0000_0000), 1.0);
    assert_eq!(decode(WireType::F64, &[0; 4]), Err(DecodeError::ShortBuffer));
}

#[test]
fn decode_string() {
    assert_eq!(decode(WireType::String, b"EK1100"), text("EK1100"));
    assert_eq!(decode(WireType::String, &[0xC3, 0xA9]), text("é"));
    assert_eq!(decode(WireType::String, &[0xFF]), Err(DecodeError::InvalidUtf8));
}

#[test]
fn round_trip_fixed_width_integers() {
    let cases = [
        (Literal::Int8(-7), WireType::I8, "-7"),
        (Literal::Int16(-300), WireType::I16, "-300"),
        (Literal::Int32(i32::MAX), WireType::I32, "2147483647"),
        (Literal::Int64(i64::MIN), WireType::I64, "-9223372036854775808"),
    ];
    for (lit, t, shown) in cases {
        assert_eq!(decode(t, &encode(&lit)), text(shown));
    }
}

#[test]
fn string_literal_with_escaped_quotes() {
    assert_eq!(
        write_value(r#"w EK1100 0x1008:0 "he said \"hi\"""#),
        Ok(Literal::String("he said \"hi\"".to_string()))
    );
    assert_eq!(
        write_value(r#"w EK1100 0x1008:0 "a\\b\n\t\r""#),
        Ok(Literal::String("a\\b\n\t\r".to_string()))
    );
}

#[test]
fn malformed_string_literals() {
    assert_eq!(
        write_value(r#"w EK1100 0x1008:0 "open"#),
        Err(ParseError::MalformedLiteral)
    );
    assert_eq!(
        write_value(r#"w EK1100 0x1008:0 "bad \q""#),
        Err(ParseError::MalformedLiteral)
    );
    assert_eq!(
        write_value(r#"w EK1100 0x1008:0 "a" b"#),
        Err(ParseError::UnrecognizedCommand)
    );
}

#[test]
fn integer_literals() {
    assert_eq!(write_value("w A 0x1:0 0x7Fi8"), Ok(Literal::Int8(127)));
    assert_eq!(write_value("w A 0x1:0 1000i16"), Ok(Literal::Int16(1000)));
    assert_eq!(write_value("w A 0x1:0 0xffff i32"), Ok(Literal::Int32(65535)));
    assert_eq!(
        write_value("w A 0x1:0 9223372036854775807i64"),
        Ok(Literal::Int64(i64::MAX))
    );
    assert_eq!(write_value("w A 0x1:0 128i8"), Err(ParseError::MalformedLiteral));
    assert_eq!(
        write_value("w A 0x1:0 9223372036854775808i64"),
        Err(ParseError::MalformedLiteral)
    );
}

#[test]
fn float_literals() {
    assert_eq!(write_value("w A 0x1:0 1.5"), Ok(Literal::Float("1.5".to_string())));
    assert_eq!(write_value("w A 0x1:0 5"), Ok(Literal::Float("5".to_string())));
    assert_eq!(
        write_value("w A 0x1:0 -2.5e-3"),
        Ok(Literal::Float("-2.5e-3".to_string()))
    );
    assert_eq!(write_value("w A 0x1:0 1.5x"), Err(ParseError::MalformedLiteral));
    assert_eq!(write_value("w A 0x1:0 ."), Err(ParseError::MalformedLiteral));
}

#[test]
fn resolve_tags() {
    assert_eq!(resolve("[f32]"), Err(ParseError::UnknownTypeTag));
    assert_eq!(resolve("[String]"), Err(ParseError::UnknownTypeTag));
    assert_eq!(resolve("u128"), Err(ParseError::UnknownTypeTag));
    assert_eq!(resolve("[u16]"), Ok(WireType::ArrayU16));
    assert_eq!(resolve("bool"), Ok(WireType::Bool));
    assert_eq!(resolve("f64"), Ok(WireType::F64));
    assert_eq!(resolve("i64"), Ok(WireType::I64));
}

#[test]
fn missing_type_tag_is_unrecognized() {
    assert_eq!(
        Command::parse("r EK1100 0x1008:0"),
        Err(ParseError::UnrecognizedCommand)
    );
}

#[test]
fn parse_errors() {
    assert_eq!(Command::parse(""), Err(ParseError::UnrecognizedCommand));
    assert_eq!(
        Command::parse("x EK1100 0x1008:0 u8"),
        Err(ParseError::UnrecognizedCommand)
    );
    assert_eq!(
        Command::parse("r EK-1100 0x1008:0 u8"),
        Err(ParseError::UnrecognizedCommand)
    );
    assert_eq!(
        Command::parse("r EK1100 0x10g8:0 u8"),
        Err(ParseError::MalformedObjectIndex)
    );
    assert_eq!(
        Command::parse("r EK1100 0x1008:256 u8"),
        Err(ParseError::MalformedObjectIndex)
    );
    assert_eq!(
        Command::parse("r EK1100 0x10000:0 u8"),
        Err(ParseError::MalformedObjectIndex)
    );
    assert_eq!(
        Command::parse("r EK1100 1008:0 u8"),
        Err(ParseError::MalformedObjectIndex)
    );
    assert_eq!(
        Command::parse("r EK1100 0x1008:0 [f32]"),
        Err(ParseError::UnknownTypeTag)
    );
    assert_eq!(
        Command::parse("r EK1100 0x1008:0 String x"),
        Err(ParseError::UnrecognizedCommand)
    );
    assert_eq!(
        Command::parse("r EK1100 0x1008:0 u8 extra"),
        Err(ParseError::UnrecognizedCommand)
    );
    assert_eq!(
        Command::parse("r EK1100 0x1008:0 foo bar"),
        Err(ParseError::UnknownTypeTag)
    );
    assert_eq!(
        Command::parse("r EK1100 0x1008:0 "),
        Err(ParseError::UnknownTypeTag)
    );
}

#[test]
fn read_format_renders_by_type() {
    let Ok(Command::Read(read)) = Command::parse("r EL3062 0x6000:17 [i16]") else {
        panic!("expected a read command");
    };
    assert_eq!(read.object(), (0x6000, 17));
    assert_eq!(read.format(&[0xFF, 0xFF, 0x02, 0x00]), text("[-1, 2]"));
}

#[test]
fn escape_fields() {
    assert_eq!(escape("EK1100"), "EK1100");
    assert_eq!(escape("a\"b"), "a\"b");
    assert_eq!(escape("EtherCAT Coupler"), "\"EtherCAT Coupler\"");
    assert_eq!(escape("say \"hi\"\t\\"), "\"say \\\"hi\\\"\t\\\\\"");
}
