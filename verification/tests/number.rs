use lightctl::number::{read_unsigned, write_unsigned};

#[test]
fn digits_are_read_as_their_value() {
    assert_eq!(read_unsigned("0", 255), Some(0));
    assert_eq!(read_unsigned("7", 255), Some(7));
    assert_eq!(read_unsigned("254", 255), Some(254));
    assert_eq!(read_unsigned("8418", 65535), Some(8418));
    assert_eq!(read_unsigned("366", u64::MAX), Some(366));
}

#[test]
fn the_limit_itself_is_accepted_and_one_more_is_not() {
    assert_eq!(read_unsigned("255", 255), Some(255));
    assert_eq!(read_unsigned("256", 255), None);
    assert_eq!(read_unsigned("65535", 65535), Some(65535));
    assert_eq!(read_unsigned("65536", 65535), None);
    assert_eq!(read_unsigned("0", 0), Some(0));
    assert_eq!(read_unsigned("1", 0), None);
    assert_eq!(read_unsigned("18446744073709551615", u64::MAX), Some(u64::MAX));
    assert_eq!(read_unsigned("18446744073709551616", u64::MAX), None);
    assert_eq!(read_unsigned("99999999999999999999999999", u64::MAX), None);
}

#[test]
fn leading_zeros_do_not_change_the_value() {
    assert_eq!(read_unsigned("007", 255), Some(7));
    assert_eq!(read_unsigned("0000000000000000000000000255", 255), Some(255));
    assert_eq!(read_unsigned("00", 0), Some(0));
}

#[test]
fn what_is_no_literal_of_digits_has_no_value() {
    for text in ["", "-1", "+1", "1.0", "1e2", "0x10", " 1", "1 ", "12a", "a12", "1_000", "\u{661}"] {
        assert_eq!(read_unsigned(text, u64::MAX), None, "{text:?}");
    }
}

#[test]
fn a_bad_character_after_the_limit_was_passed_still_gives_none() {
    assert_eq!(read_unsigned("999x", 255), None);
    assert_eq!(read_unsigned("x999", 255), None);
}

#[test]
fn numbers_are_written_as_their_shortest_literal() {
    assert_eq!(write_unsigned(0), "0");
    assert_eq!(write_unsigned(9), "9");
    assert_eq!(write_unsigned(10), "10");
    assert_eq!(write_unsigned(254), "254");
    assert_eq!(write_unsigned(65535), "65535");
    assert_eq!(write_unsigned(1_000_000), "1000000");
    assert_eq!(write_unsigned(u64::MAX), "18446744073709551615");
}

#[test]
fn reading_what_was_written_gives_the_number_back() {
    for n in [0u64, 1, 9, 10, 99, 100, 255, 256, 65535, 65536, 4294967295, u64::MAX - 1, u64::MAX] {
        assert_eq!(read_unsigned(&write_unsigned(n), u64::MAX), Some(n));
        assert_eq!(read_unsigned(&write_unsigned(n), n), Some(n));
        if n > 0 {
            assert_eq!(read_unsigned(&write_unsigned(n), n - 1), None);
        }
    }
}
