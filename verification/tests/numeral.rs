use roman_calc::numeral::arabic_to_roman;
use roman_calc::numeral::roman_to_arabic;
use roman_calc::numeral::ParseError;

#[test]
fn test_roman_to_arabic() {
    assert_eq!(roman_to_arabic("IV").unwrap(), 4);
    assert_eq!(roman_to_arabic("IX").unwrap(), 9);
    assert_eq!(roman_to_arabic("XIV").unwrap(), 14);
    assert_eq!(roman_to_arabic("MCMLIV").unwrap(), 1954);
    assert_eq!(roman_to_arabic("MMMCMXCIX").unwrap(), 3999);
}

#[test]
fn test_arabic_to_roman() {
    assert_eq!(arabic_to_roman(4), "IV");
    assert_eq!(arabic_to_roman(9), "IX");
    assert_eq!(arabic_to_roman(14), "XIV");
    assert_eq!(arabic_to_roman(1954), "MCMLIV");
    assert_eq!(arabic_to_roman(3999), "MMMCMXCIX");
}

#[test]
fn round_trip_every_value() {
    for n in 1i32..=3999 {
        assert_eq!(roman_to_arabic(&arabic_to_roman(n)).unwrap(), n);
    }
}

#[test]
fn parse_is_case_insensitive() {
    assert_eq!(roman_to_arabic("xiv").unwrap(), 14);
    assert_eq!(roman_to_arabic("mCmLiV").unwrap(), 1954);
}

#[test]
fn parse_is_lenient_about_non_canonical_forms() {
    assert_eq!(roman_to_arabic("IIII").unwrap(), 4);
    assert_eq!(roman_to_arabic("VX").unwrap(), 5);
}

#[test]
fn parse_rejects_empty_input() {
    assert_eq!(roman_to_arabic(""), Err(ParseError::EmptyInput));
}

#[test]
fn parse_rejects_invalid_symbol() {
    assert_eq!(roman_to_arabic("IVX1"), Err(ParseError::InvalidSymbol('1')));
    assert_eq!(roman_to_arabic("ABC"), Err(ParseError::InvalidSymbol('B')));
}

#[test]
fn parse_rejects_out_of_range_values() {
    assert_eq!(roman_to_arabic("MMMM"), Err(ParseError::OutOfRange));
}

#[test]
fn format_boundaries() {
    assert_eq!(arabic_to_roman(1), "I");
    assert_eq!(arabic_to_roman(3999), "MMMCMXCIX");
}
