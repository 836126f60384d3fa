use tty_mood::cli::{parse_lowered_range, parse_range, OutputFormat, RangeError};

#[test]
fn parse_range_days() {
    assert_eq!(parse_range("7d").unwrap(), 7);
    assert_eq!(parse_range("14d").unwrap(), 14);
    assert_eq!(parse_range("30d").unwrap(), 30);
}

#[test]
fn parse_range_weeks() {
    assert_eq!(parse_range("1w").unwrap(), 7);
    assert_eq!(parse_range("2w").unwrap(), 14);
}

#[test]
fn parse_range_plain_number() {
    assert_eq!(parse_range("7").unwrap(), 7);
}

#[test]
fn parse_range_invalid() {
    assert!(parse_range("abc").is_err());
    assert!(parse_range("7x").is_err());
}

#[test]
fn parse_range_ignores_case_and_space() {
    assert_eq!(parse_range("  2W ").unwrap(), 14);
    assert_eq!(parse_range("3D").unwrap(), 3);
    assert_eq!(parse_range("+5").unwrap(), 5);
}

#[test]
fn parse_range_errors_name_the_range() {
    let e = parse_range("xd").unwrap_err();
    assert_eq!(e, RangeError::InvalidCount("xd".to_string()));
    assert_eq!(e.message(), "Invalid range: xd");
    let e = parse_lowered_range("abc").unwrap_err();
    assert_eq!(e.message(), "Invalid range: abc. Use format like '7d' or '2w'.");
    assert!(parse_range("").is_err());
    assert!(parse_range("d").is_err());
}

#[test]
fn parse_range_limits() {
    assert_eq!(parse_range("4294967295").unwrap(), u32::MAX);
    assert!(parse_range("4294967296").is_err());
    assert_eq!(parse_range("613566756w").unwrap(), 613566756 * 7);
    assert!(parse_range("613566757w").is_err());
}

#[test]
fn output_format_names() {
    assert_eq!(OutputFormat::from_name("JSON"), Ok(OutputFormat::Json));
    assert_eq!("text".parse::<OutputFormat>(), Ok(OutputFormat::Text));
    assert_eq!(
        OutputFormat::from_name("xml"),
        Err("Unknown format: xml. Use 'text' or 'json'.".to_string())
    );
}
