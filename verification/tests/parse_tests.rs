use qrng_cli::parse::{parse_u16_line, validate_prompt_line};

#[test]
fn accepts_plain_numbers() {
    assert_eq!(validate_prompt_line("42"), Some(42));
    assert_eq!(validate_prompt_line("1"), Some(1));
    assert_eq!(validate_prompt_line("1024"), Some(1024));
}

#[test]
fn accepts_surrounding_whitespace() {
    assert_eq!(validate_prompt_line(" 42\n"), Some(42));
    assert_eq!(validate_prompt_line("\t7\r\n"), Some(7));
}

#[test]
fn accepts_leading_plus_and_zeros() {
    assert_eq!(validate_prompt_line("+7"), Some(7));
    assert_eq!(validate_prompt_line("007"), Some(7));
}

#[test]
fn rejects_out_of_range_values() {
    assert_eq!(validate_prompt_line("0"), None);
    assert_eq!(validate_prompt_line("1025"), None);
    assert_eq!(validate_prompt_line("70000"), None);
}

#[test]
fn rejects_non_numeric_lines() {
    assert_eq!(validate_prompt_line("abc"), None);
    assert_eq!(validate_prompt_line(""), None);
    assert_eq!(validate_prompt_line("   "), None);
    assert_eq!(validate_prompt_line("12a"), None);
    assert_eq!(validate_prompt_line("-5"), None);
    assert_eq!(validate_prompt_line("1 2"), None);
    assert_eq!(validate_prompt_line("+"), None);
}

#[test]
fn parses_full_u16_range() {
    assert_eq!(parse_u16_line("65535"), Some(65535));
    assert_eq!(parse_u16_line("65536"), None);
    assert_eq!(parse_u16_line("99999999999999999999"), None);
}

#[test]
fn accepted_values_always_in_bounds() {
    let lines = ["0", "1", "17", "1024", "1025", "65535", "65536", "x", " 9 "];
    for line in lines {
        if let Some(v) = validate_prompt_line(line) {
            assert!((1..=1024).contains(&v));
        }
    }
}
