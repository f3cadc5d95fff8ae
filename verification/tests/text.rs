//! Numbers as text, and the clock.
use poker_table::clock::{time_from_distance, within_seconds};
use poker_table::text::{parse_unsigned, trim_end, u64_to_text};

#[test]
fn numbers_are_written_in_decimal() {
    for n in [0u64, 7, 10, 99, 100, 1_234_567_890, u64::MAX] {
        assert_eq!(u64_to_text(n), n.to_string());
    }
}

#[test]
fn numbers_are_read_as_the_standard_library_reads_them() {
    let texts = [
        "", "+", "-", "0", "+0", "-0", "00012", "+7", "++7", "1 ", " 1", "1_000", "12a", "\u{661}",
        "4294967295", "4294967296", "18446744073709551615", "18446744073709551616",
        "000000000000000000000000000001", "99999999999999999999999999", "99999999999999999999x",
    ];
    for text in texts {
        assert_eq!(parse_unsigned(text, u64::MAX), text.parse::<u64>().ok());
        assert_eq!(
            parse_unsigned(text, u32::MAX as u64),
            text.parse::<u32>().ok().map(|n| n as u64)
        );
    }
}

#[test]
fn trailing_copies_are_trimmed() {
    assert_eq!(trim_end("a/b//", '/'), "a/b");
    assert_eq!(trim_end("//", '/'), "");
    assert_eq!(trim_end("a", '/'), "a");
}

#[test]
fn times_lie_on_both_sides_of_the_epoch() {
    assert_eq!(time_from_distance(Ok(5)), 5);
    assert_eq!(time_from_distance(Err(5)), -5);
    assert_eq!(time_from_distance(Err(i128::MIN)), i128::MAX);
}

#[test]
fn whole_seconds_are_counted() {
    assert!(within_seconds(1_999_999_999, 0, 2));
    assert!(!within_seconds(2_000_000_000, 0, 2));
    assert!(!within_seconds(-1, 0, 2));
    assert!(within_seconds(i128::MAX, i128::MAX - 1, u64::MAX));
}
