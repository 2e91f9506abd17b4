use astrofetch::cli::{parse_usize, validate_height, validate_width};

#[test]
fn width_accepts_one_to_two_hundred() {
    assert_eq!(validate_width("1"), Ok(1));
    assert_eq!(validate_width("60"), Ok(60));
    assert_eq!(validate_width("200"), Ok(200));
    assert_eq!(validate_width("+7"), Ok(7));
}

#[test]
fn width_rejects_out_of_range_values() {
    assert_eq!(
        validate_width("0"),
        Err("width must be between 1 and 200".to_string())
    );
    assert_eq!(
        validate_width("201"),
        Err("width must be between 1 and 200".to_string())
    );
}

#[test]
fn height_accepts_one_to_one_hundred() {
    assert_eq!(validate_height("1"), Ok(1));
    assert_eq!(validate_height("30"), Ok(30));
    assert_eq!(validate_height("100"), Ok(100));
}

#[test]
fn height_rejects_out_of_range_values() {
    assert_eq!(
        validate_height("0"),
        Err("height must be between 1 and 100".to_string())
    );
    assert_eq!(
        validate_height("101"),
        Err("height must be between 1 and 100".to_string())
    );
}

#[test]
fn non_numbers_are_rejected_with_their_text() {
    assert_eq!(validate_width("abc"), Err("'abc' is not a valid usize".to_string()));
    assert_eq!(validate_height(""), Err("'' is not a valid usize".to_string()));
    assert_eq!(validate_height("-3"), Err("'-3' is not a valid usize".to_string()));
}

#[test]
fn parse_usize_matches_std() {
    for s in ["0", "42", "+5", "007", "18446744073709551615", "18446744073709551616", "", "+", "1a", " 1", "-1"] {
        assert_eq!(parse_usize(s), s.parse::<usize>().ok(), "input {s:?}");
    }
}

#[test]
fn test_args_explicit_dimensions() {
    assert_eq!(validate_width("60"), Ok(60));
    assert_eq!(validate_height("30"), Ok(30));
}

#[test]
fn test_args_zero_width() {
    assert!(validate_width("0").is_err());
}

#[test]
fn test_args_zero_height() {
    assert!(validate_height("0").is_err());
}

#[test]
fn test_args_width_above_200() {
    assert!(validate_width("201").is_err());
}

#[test]
fn test_args_height_above_100() {
    assert!(validate_height("101").is_err());
}
