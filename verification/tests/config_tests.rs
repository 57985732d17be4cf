use numbers_game::config::{parse_config, parse_i32_or_zero, render_config};

#[test]
fn renders_both_lines() {
    let bytes = render_config(1, 2);
    assert_eq!(bytes, b"locale = 1\ndifficulty = 2".to_vec());
}

#[test]
fn renders_multi_digit_numbers() {
    let bytes = render_config(12, 305);
    assert_eq!(bytes, b"locale = 12\ndifficulty = 305".to_vec());
}

#[test]
fn round_trip_hard_locale_one() {
    // Writing difficulty ordinal 2 (Hard) and locale 1 and reading the
    // file back yields the same numbers.
    let bytes = render_config(1, 2);
    assert_eq!(parse_config(&bytes), (1, 2));
}

#[test]
fn round_trip_large_values() {
    let bytes = render_config(2147483647, 0);
    assert_eq!(parse_config(&bytes), (2147483647, 0));
}

#[test]
fn missing_file_content_gives_defaults() {
    assert_eq!(parse_config(b""), (0, 0));
}

#[test]
fn malformed_lines_are_ignored() {
    assert_eq!(parse_config(b"nonsense\nlocale = 3"), (3, 0));
    assert_eq!(parse_config(b"locale 3\ndifficulty = 1"), (0, 1));
}

#[test]
fn malformed_value_falls_back_to_zero() {
    assert_eq!(parse_config(b"locale = abc\ndifficulty = 2"), (0, 2));
    assert_eq!(parse_config(b"difficulty = 1 2"), (0, 0));
}

#[test]
fn later_lines_overwrite_earlier_ones() {
    assert_eq!(parse_config(b"locale = 1\nlocale = 4\ndifficulty = 2"), (4, 2));
}

#[test]
fn tolerates_missing_spaces_and_crlf() {
    assert_eq!(parse_config(b"locale=2\r\ndifficulty=1\r\n"), (2, 1));
}

#[test]
fn parameter_prefix_is_enough() {
    // Parameters are matched by their leading word alone.
    assert_eq!(parse_config(b"locale_index = 2\ndifficulty_level = 1"), (2, 1));
}

#[test]
fn parses_plain_integers() {
    assert_eq!(parse_i32_or_zero(b"0"), 0);
    assert_eq!(parse_i32_or_zero(b"42"), 42);
    assert_eq!(parse_i32_or_zero(b"+7"), 7);
    assert_eq!(parse_i32_or_zero(b"-2"), -2);
    assert_eq!(parse_i32_or_zero(b"007"), 7);
    assert_eq!(parse_i32_or_zero(b"00000000000000001"), 1);
}

#[test]
fn parses_i32_bounds() {
    assert_eq!(parse_i32_or_zero(b"2147483647"), 2147483647);
    assert_eq!(parse_i32_or_zero(b"-2147483648"), -2147483648);
    assert_eq!(parse_i32_or_zero(b"2147483648"), 0);
    assert_eq!(parse_i32_or_zero(b"-2147483649"), 0);
    assert_eq!(parse_i32_or_zero(b"99999999999999999999"), 0);
}

#[test]
fn rejects_non_numbers() {
    assert_eq!(parse_i32_or_zero(b""), 0);
    assert_eq!(parse_i32_or_zero(b"-"), 0);
    assert_eq!(parse_i32_or_zero(b"+"), 0);
    assert_eq!(parse_i32_or_zero(b"12x"), 0);
    assert_eq!(parse_i32_or_zero(b" 12"), 0);
}

#[test]
fn lines_without_known_prefix_change_nothing() {
    assert_eq!(parse_config(b"volume = 3\nlocale = 1"), (1, 0));
}

#[test]
fn values_may_carry_surrounding_whitespace() {
    assert_eq!(parse_config(b"locale =   5  \ndifficulty =\t1"), (5, 1));
}
