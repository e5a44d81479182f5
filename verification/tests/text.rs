use pubsub_proto::text::{
    byte_is_digit, byte_is_ident_part, byte_is_ident_start, byte_is_space, byte_lower,
    read_decimal, write_decimal,
};

#[test]
fn byte_classes_agree_with_the_standard_ones() {
    for c in 0..=255u8 {
        assert_eq!(byte_is_space(c), c.is_ascii_whitespace(), "byte {c}");
        assert_eq!(byte_is_digit(c), c.is_ascii_digit(), "byte {c}");
        assert_eq!(byte_is_ident_start(c), c.is_ascii_alphabetic() || c == b'_', "byte {c}");
        assert_eq!(
            byte_is_ident_part(c),
            c.is_ascii_alphanumeric() || c == b'_' || c == b'.',
            "byte {c}"
        );
        assert_eq!(byte_lower(c), c.to_ascii_lowercase(), "byte {c}");
    }
}

#[test]
fn decimal_runs_are_read_exactly() {
    assert_eq!(read_decimal(b"0"), Some(0));
    assert_eq!(read_decimal(b"9"), Some(9));
    assert_eq!(read_decimal(b"10"), Some(10));
    assert_eq!(read_decimal(b"400"), Some(400));
    assert_eq!(read_decimal(b"0000"), Some(0));
    assert_eq!(read_decimal(b"00042"), Some(42));
    assert_eq!(read_decimal(b"65535"), Some(65535));
    assert_eq!(read_decimal(format!("{}", usize::MAX).as_bytes()), Some(usize::MAX));
    assert_eq!(read_decimal(format!("000{}", usize::MAX).as_bytes()), Some(usize::MAX));
}

#[test]
fn decimal_runs_that_denote_no_number_are_refused() {
    assert_eq!(read_decimal(b""), None);
    assert_eq!(read_decimal(b"a"), None);
    assert_eq!(read_decimal(b"12a"), None);
    assert_eq!(read_decimal(b"a12"), None);
    assert_eq!(read_decimal(b"+12"), None);
    assert_eq!(read_decimal(b"-1"), None);
    assert_eq!(read_decimal(b" 1"), None);
    assert_eq!(read_decimal(b"1 "), None);
    assert_eq!(read_decimal(b"/"), None);
    assert_eq!(read_decimal(b":"), None);
    assert_eq!(read_decimal(format!("{}0", usize::MAX).as_bytes()), None);
    assert_eq!(read_decimal(b"340282366920938463463374607431768211456"), None);
    let wide = (usize::MAX as u128) + 1;
    assert_eq!(read_decimal(format!("{wide}").as_bytes()), None);
    assert_eq!(read_decimal(format!("{wide}x").as_bytes()), None);
}

#[test]
fn reading_agrees_with_the_standard_parser_on_digit_runs() {
    for text in ["0", "1", "007", "123456789", "18446744073709551615", "18446744073709551616", "4294967295", "4294967296", "99999999999999999999999"] {
        assert_eq!(read_decimal(text.as_bytes()), text.parse::<usize>().ok(), "text {text}");
    }
}

#[test]
fn numbers_are_written_in_decimal() {
    assert_eq!(write_decimal(0), "0");
    assert_eq!(write_decimal(7), "7");
    assert_eq!(write_decimal(10), "10");
    assert_eq!(write_decimal(19), "19");
    assert_eq!(write_decimal(400), "400");
    assert_eq!(write_decimal(1234567890), "1234567890");
    assert_eq!(write_decimal(usize::MAX), format!("{}", usize::MAX));
}

#[test]
fn writing_then_reading_gives_the_number_back() {
    for n in [0usize, 1, 9, 10, 99, 100, 255, 256, 65535, 1 << 20, usize::MAX - 1, usize::MAX] {
        assert_eq!(read_decimal(write_decimal(n).as_bytes()), Some(n));
    }
}
