//! The command parser: integer literals and slash commands.

use chat_relay::parser::{parse_command, parse_i64, Command};

#[test]
fn parses_plain_numbers() {
    assert_eq!(parse_i64("0"), Some(0));
    assert_eq!(parse_i64("42"), Some(42));
    assert_eq!(parse_i64("007"), Some(7));
    assert_eq!(parse_i64("+10"), Some(10));
    assert_eq!(parse_i64("-7"), Some(-7));
}

#[test]
fn parses_extreme_numbers() {
    assert_eq!(parse_i64("9223372036854775807"), Some(i64::MAX));
    assert_eq!(parse_i64("-9223372036854775808"), Some(i64::MIN));
    assert_eq!(parse_i64("9223372036854775808"), None);
    assert_eq!(parse_i64("-9223372036854775809"), None);
    assert_eq!(parse_i64("99999999999999999999999999999999999999999999"), None);
    assert_eq!(parse_i64("00000000000000000000000000000000000000000001"), Some(1));
}

#[test]
fn rejects_malformed_numbers() {
    assert_eq!(parse_i64(""), None);
    assert_eq!(parse_i64("-"), None);
    assert_eq!(parse_i64("+"), None);
    assert_eq!(parse_i64("abc"), None);
    assert_eq!(parse_i64("4 2"), None);
    assert_eq!(parse_i64(" 42"), None);
    assert_eq!(parse_i64("42 "), None);
    assert_eq!(parse_i64("4.2"), None);
    assert_eq!(parse_i64("--4"), None);
}

#[test]
fn plain_text_is_chat() {
    assert!(matches!(parse_command("hello"), Command::Chat));
    assert!(matches!(parse_command(""), Command::Chat));
    assert!(matches!(parse_command("join 42"), Command::Chat));
    assert!(matches!(parse_command("a / b"), Command::Chat));
}

#[test]
fn well_formed_join_is_recognized() {
    assert!(matches!(parse_command("/join 42"), Command::Join(42)));
    assert!(matches!(parse_command("/join 0"), Command::Join(0)));
    assert!(matches!(parse_command("/join -3"), Command::Join(-3)));
}

#[test]
fn malformed_slash_frames_are_invalid() {
    assert!(matches!(parse_command("/"), Command::Invalid));
    assert!(matches!(parse_command("/join"), Command::Invalid));
    assert!(matches!(parse_command("/join "), Command::Invalid));
    assert!(matches!(parse_command("/join notanumber"), Command::Invalid));
    assert!(matches!(parse_command("/join  42"), Command::Invalid));
    assert!(matches!(parse_command("/join 4 2"), Command::Invalid));
    assert!(matches!(parse_command("/leave 42"), Command::Invalid));
    assert!(matches!(parse_command("/JOIN 42"), Command::Invalid));
}
