use tabify::config::{parse_width, ConfigError};

#[test]
fn accepts_positive_widths() {
    assert_eq!(Ok(4), parse_width("4"));
    assert_eq!(Ok(1), parse_width("1"));
    assert_eq!(Ok(8), parse_width("8"));
    assert_eq!(Ok(2147483647), parse_width("2147483647"));
}

#[test]
fn accepts_leading_zeros() {
    assert_eq!(Ok(4), parse_width("0004"));
    assert_eq!(Ok(10), parse_width("010"));
}

#[test]
fn rejects_empty_text() {
    assert_eq!(Err(ConfigError::InvalidWidth), parse_width(""));
}

#[test]
fn rejects_non_digits() {
    assert_eq!(Err(ConfigError::InvalidWidth), parse_width("abc"));
    assert_eq!(Err(ConfigError::InvalidWidth), parse_width("4a"));
    assert_eq!(Err(ConfigError::InvalidWidth), parse_width(" 4"));
    assert_eq!(Err(ConfigError::InvalidWidth), parse_width("4.0"));
    assert_eq!(Err(ConfigError::InvalidWidth), parse_width("-3"));
    assert_eq!(Err(ConfigError::InvalidWidth), parse_width("+4"));
}

#[test]
fn rejects_zero() {
    assert_eq!(Err(ConfigError::InvalidWidth), parse_width("0"));
    assert_eq!(Err(ConfigError::InvalidWidth), parse_width("000"));
}

#[test]
fn rejects_values_that_do_not_fit() {
    assert_eq!(Err(ConfigError::InvalidWidth), parse_width("2147483648"));
    assert_eq!(
        Err(ConfigError::InvalidWidth),
        parse_width("99999999999999999999")
    );
}
