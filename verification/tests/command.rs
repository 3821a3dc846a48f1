use syncprim::command::{parse_command, parse_seconds, CommandError};

#[test]
fn a_command_is_seconds_space_message() {
    assert_eq!(parse_command(b"10 Rust", u64::MAX), Ok((10, 2)));
    assert_eq!(parse_command(b"0 now", u64::MAX), Ok((0, 1)));
    assert_eq!(parse_command(b"7  two spaces", u64::MAX), Ok((7, 1)));
    assert_eq!(parse_command(b"+5 signed", u64::MAX), Ok((5, 2)));
    assert_eq!(parse_command(b"0012 zeros\n", u64::MAX), Ok((12, 4)));
    assert_eq!(parse_command(b"3 ", u64::MAX), Ok((3, 1)));
}

#[test]
fn a_line_without_a_space_is_a_bad_command() {
    for line in ["", "10", "10\n", "message", "10\tRust"] {
        assert_eq!(parse_command(line.as_bytes(), u64::MAX), Err(CommandError::NoSpace));
    }
    assert_eq!(CommandError::NoSpace.message(), "Bad command");
}

#[test]
fn what_stands_before_the_space_has_to_be_a_number() {
    for line in [" 10 Rust", "ten Rust", "-1 Rust", "1.5 Rust", "+ Rust", "1e3 Rust", "1_000 x", "++1 x", "1+ x"] {
        assert_eq!(
            parse_command(line.as_bytes(), u64::MAX),
            Err(CommandError::BadSeconds),
            "{:?}",
            line
        );
    }
    assert_eq!(CommandError::BadSeconds.message(), "failed to parse seconds");
}

#[test]
fn seconds_stop_at_the_limit() {
    assert_eq!(parse_command(b"65535 x", 65535), Ok((65535, 5)));
    assert_eq!(parse_command(b"65536 x", 65535), Err(CommandError::BadSeconds));
    assert_eq!(parse_command(b"18446744073709551615 x", u64::MAX), Ok((u64::MAX, 20)));
    assert_eq!(parse_command(b"18446744073709551616 x", u64::MAX), Err(CommandError::BadSeconds));
    assert_eq!(parse_command(b"99999999999999999999999 x", u64::MAX), Err(CommandError::BadSeconds));
    assert_eq!(parse_command(b"000000000000000000000000001 x", 1), Ok((1, 27)));
}

#[test]
fn parse_seconds_agrees_with_the_standard_parser() {
    let texts = [
        "", "+", "-", "0", "+0", "-0", "1", "42", "+42", "0042", "4 2", "42 ", " 42", "4a", "a4",
        "18446744073709551615", "18446744073709551616", "184467440737095516150", "65535", "65536",
        "99999", "+65535", "\u{663}",
    ];
    for text in texts {
        assert_eq!(parse_seconds(text.as_bytes(), u64::MAX), text.parse::<u64>().ok(), "{:?}", text);
        assert_eq!(
            parse_seconds(text.as_bytes(), u16::MAX as u64),
            text.parse::<u16>().ok().map(u64::from),
            "{:?}",
            text
        );
    }
}

#[test]
fn parse_seconds_with_a_small_limit() {
    assert_eq!(parse_seconds(b"9", 9), Some(9));
    assert_eq!(parse_seconds(b"10", 9), None);
    assert_eq!(parse_seconds(b"0", 0), Some(0));
    assert_eq!(parse_seconds(b"1", 0), None);
    assert_eq!(parse_seconds(b"00", 0), Some(0));
}
