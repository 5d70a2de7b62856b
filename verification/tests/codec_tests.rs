use std::str::FromStr;

use redis_rs::wire::RedisType;
use redis_rs::wire::RedisTypeParseError;

fn text(v: &str) -> RedisType {
    RedisType::String { value: v.to_string() }
}

fn errval(v: &str) -> RedisType {
    RedisType::Error { value: v.to_string() }
}

fn intval(v: i64) -> RedisType {
    RedisType::Integer { value: v }
}

/// Both directions and both round trips for one canonical wire text.
fn check_case(wire: &str, value: RedisType) {
    assert_eq!(RedisType::from_str(wire).unwrap(), value);
    assert_eq!(value.serialize(false), wire);
    assert_eq!(
        RedisType::from_str(&value.serialize(false)).unwrap(),
        value
    );
    assert_eq!(RedisType::from_str(wire).unwrap().serialize(false), wire);
}

#[test]
fn codec_null() {
    check_case("$-1\r\n", RedisType::NullString);
}

#[test]
fn codec_null_array() {
    check_case("*-1\r\n", RedisType::NullArray);
}

#[test]
fn codec_simple_string() {
    check_case("+Hello world\r\n", text("Hello world"));
}

#[test]
fn codec_empty_string() {
    check_case("$0\r\n\r\n", text(""));
}

#[test]
fn codec_bulk_string() {
    check_case("$5\r\nYo\0\r\n\r\n", text("Yo\0\r\n"));
}

#[test]
fn codec_err() {
    check_case("-ERR Goodbye world\r\n", errval("ERR Goodbye world"));
}

#[test]
fn codec_positive_integer() {
    check_case(":42\r\n", intval(42));
}

#[test]
fn codec_negative_integer() {
    check_case(":-1337\r\n", intval(-1337));
}

#[test]
fn codec_integer_extremes() {
    check_case(":9223372036854775807\r\n", intval(i64::MAX));
    check_case(":-9223372036854775808\r\n", intval(i64::MIN));
}

#[test]
fn codec_array() {
    check_case(
        "*3\r\n+Hello world\r\n:42\r\n-ERR Goodbye world\r\n",
        RedisType::Array {
            value: vec![text("Hello world"), intval(42), errval("ERR Goodbye world")],
        },
    );
}

#[test]
fn codec_empty_array() {
    check_case("*0\r\n", RedisType::Array { value: vec![] });
}

#[test]
fn codec_null_in_array() {
    check_case(
        "*3\r\n$3\r\nYo\0\r\n$-1\r\n-ERR Goodbye world\r\n",
        RedisType::Array {
            value: vec![
                text("Yo\0"),
                RedisType::NullString,
                errval("ERR Goodbye world"),
            ],
        },
    );
}

#[test]
fn codec_nested_array() {
    let inner = RedisType::Array {
        value: vec![text("Hello world"), intval(42), errval("ERR Goodbye world")],
    };
    check_case(
        "*4\r\n+Hello world\r\n:42\r\n-ERR Goodbye world\r\n*3\r\n+Hello world\r\n:42\r\n-ERR Goodbye world\r\n",
        RedisType::Array {
            value: vec![
                text("Hello world"),
                intval(42),
                errval("ERR Goodbye world"),
                inner,
            ],
        },
    );
}

#[test]
fn codec_null_distinct_from_empty() {
    assert_eq!(RedisType::NullString.serialize(false), "$-1\r\n");
    assert_eq!(text("").serialize(false), "$0\r\n\r\n");
    assert_ne!(
        RedisType::from_str("$-1\r\n").unwrap(),
        RedisType::from_str("$0\r\n\r\n").unwrap()
    );
    assert_eq!(RedisType::NullArray.serialize(false), "*-1\r\n");
    assert_ne!(
        RedisType::from_str("*-1\r\n").unwrap(),
        RedisType::from_str("*0\r\n").unwrap()
    );
}

#[test]
fn codec_encoding_choice() {
    assert_eq!(text("plain").serialize(false), "+plain\r\n");
    assert_eq!(text("a\nb").serialize(false), "$3\r\na\nb\r\n");
    assert_eq!(text("a\tb").serialize(false), "$3\r\na\tb\r\n");
}

#[test]
fn codec_forced_bulk() {
    assert_eq!(text("plain").serialize(true), "$5\r\nplain\r\n");
    assert_eq!(
        RedisType::from_str(&text("plain").serialize(true)).unwrap(),
        text("plain")
    );
    assert_eq!(RedisType::NullString.serialize(true), "$-1\r\n");
    assert_eq!(intval(7).serialize(true), ":7\r\n");
}

#[test]
fn codec_error_missing_prefix() {
    assert_eq!(
        RedisType::from_str("").unwrap_err(),
        RedisTypeParseError::MissingPrefix
    );
}

#[test]
fn codec_error_invalid_suffix() {
    assert_eq!(
        RedisType::from_str("+no terminator").unwrap_err(),
        RedisTypeParseError::InvalidSuffix
    );
    assert_eq!(
        RedisType::from_str(":12x\r\n").unwrap_err(),
        RedisTypeParseError::InvalidSuffix
    );
    assert_eq!(
        RedisType::from_str("$5\r\nab\r\n").unwrap_err(),
        RedisTypeParseError::InvalidSuffix
    );
}

#[test]
fn codec_error_invalid_prefix() {
    assert_eq!(
        RedisType::from_str("x\r\n").unwrap_err(),
        RedisTypeParseError::InvalidPrefix
    );
    assert_eq!(
        RedisType::from_str("\r\n").unwrap_err(),
        RedisTypeParseError::InvalidPrefix
    );
}

#[test]
fn codec_error_invalid_array_length() {
    assert_eq!(
        RedisType::from_str("*abc\r\n").unwrap_err(),
        RedisTypeParseError::InvalidArrayLength
    );
    assert_eq!(
        RedisType::from_str("$abc\r\n").unwrap_err(),
        RedisTypeParseError::InvalidArrayLength
    );
}

#[test]
fn codec_error_left_over_data() {
    assert_eq!(
        RedisType::from_str("+a\r\n+b\r\n").unwrap_err(),
        RedisTypeParseError::LeftOverData
    );
}

#[test]
fn codec_carriage_return_alone_round_trips() {
    check_case("$3\r\na\rb\r\n", text("a\rb"));
    check_case("$3\r\nab\r\r\n", text("ab\r"));
    check_case("-a\rb\r\n", errval("a\rb"));
}

#[test]
fn codec_non_ascii_text() {
    // Lengths count characters, not bytes.
    check_case("+héllo\r\n", text("héllo"));
    check_case("$2\r\n\u{9}é\r\n", text("\té"));
}

#[test]
fn codec_error_text_keeps_to_one_line() {
    // An error whose text holds a line terminator cannot round-trip: the
    // parser stops at the first terminator and the tail is left over.
    let one = RedisType::Error { value: "a\r\nb".to_string() };
    assert_eq!(one.serialize(false), "-a\r\nb\r\n");
    assert_eq!(
        RedisType::from_str(&one.serialize(false)).unwrap_err(),
        RedisTypeParseError::LeftOverData
    );
}

#[test]
fn codec_from_impls() {
    assert_eq!(RedisType::from(7i64), intval(7));
    assert_eq!(RedisType::from("hi".to_string()), text("hi"));
    assert_eq!(RedisType::from(None as Option<String>), RedisType::NullString);
    assert_eq!(RedisType::from(Some("x".to_string())), text("x"));
    assert_eq!(
        RedisType::from(vec![intval(1)]),
        RedisType::Array { value: vec![intval(1)] }
    );
}
