use atlas_extract::pos::AtlasPos;
use atlas_extract::pos::ParseError;

#[test]
fn round_trip_all_positions() {
    for y in 0u8..16 {
        for x in 0u8..16 {
            let p = AtlasPos::from_pos(x, y);
            let text = p.format();
            assert_eq!(AtlasPos::parse(text.as_str()), Ok(p));
        }
    }
}

#[test]
fn format_is_two_lowercase_hex_digits_row_first() {
    assert_eq!(AtlasPos::from_pos(3, 10).format(), "a3");
    assert_eq!(AtlasPos::from_pos(0, 0).format(), "00");
    assert_eq!(AtlasPos::from_pos(15, 15).format(), "ff");
    assert_eq!(AtlasPos::from_pos(1, 0).format(), "01");
    assert_eq!(AtlasPos::from_pos(0, 2).format(), "20");
}

#[test]
fn parse_exact_values() {
    assert_eq!(AtlasPos::parse("a3"), Ok(AtlasPos::from_pos(3, 10)));
    assert_eq!(AtlasPos::parse("ff"), Ok(AtlasPos::from_pos(15, 15)));
    assert_eq!(AtlasPos::parse("00"), Ok(AtlasPos::from_pos(0, 0)));
    assert_eq!(AtlasPos::parse("A3"), Ok(AtlasPos::from_pos(3, 10)));
}

#[test]
fn parse_rejects_wrong_length() {
    assert_eq!(AtlasPos::parse(""), Err(ParseError::InvalidFormat));
    assert_eq!(AtlasPos::parse("1"), Err(ParseError::InvalidFormat));
    assert_eq!(AtlasPos::parse("abc"), Err(ParseError::InvalidFormat));
}

#[test]
fn parse_rejects_non_hex_characters() {
    assert_eq!(AtlasPos::parse("g1"), Err(ParseError::InvalidDigits));
    assert_eq!(AtlasPos::parse("1g"), Err(ParseError::InvalidDigits));
    assert_eq!(AtlasPos::parse("zz"), Err(ParseError::InvalidDigits));
}

#[test]
fn ordering_is_row_major() {
    assert!(AtlasPos::from_pos(0, 1) < AtlasPos::from_pos(15, 1));
    assert!(AtlasPos::from_pos(15, 1) < AtlasPos::from_pos(0, 2));
    assert!(AtlasPos::from_pos(0, 1) < AtlasPos::from_pos(0, 2));
}
