use numerals::decimal::to_decimal;
use numerals::roman::{decode_uppercase, to_arabic, to_roman, RomanError};

#[test]
fn roman_test_invalid_inputs() {
    let x = to_roman(0u64, false);
    assert!(x.is_err());

    let x = to_roman(1u64, true);
    assert!(x.is_ok());

    let x = to_roman(3999u64, false);
    assert!(x.is_ok());

    let x = to_roman(4000u64, true);
    assert!(x.is_err());
}

#[test]
fn roman_test_valid_inputs() {
    let x = to_roman(1999u64, false);
    assert_eq!(x.unwrap(), "MCMXCIX".to_string());

    let x = to_roman(99u64, false);
    assert_eq!(x.unwrap(), "XCIX".to_string());

    let x = to_roman(1999, true);
    assert_eq!(x.unwrap(), "ⅯⅭⅯⅩⅭⅠⅩ");
}

#[test]
fn test_string_cases() {
    let x = to_arabic("iv".to_string());
    assert!(x.is_ok());
    assert_eq!(x.unwrap(), 4);

    let x = to_arabic("LIX".to_string());
    assert!(x.is_ok());
    assert_eq!(x.unwrap(), 59);

    let x = to_arabic("CvL".to_string());
    assert!(x.is_ok());
    assert_eq!(x.unwrap(), 145);
}

#[test]
fn test_unicode_cases() {
    let x = to_arabic("ⅳ".to_string());
    assert!(x.is_ok());
    assert_eq!(x.unwrap(), 4);

    let x = to_arabic("ⅬⅨ".to_string());
    assert!(x.is_ok());
    assert_eq!(x.unwrap(), 59);

    let x = to_arabic("ⅭⅴⅬ".to_string());
    assert!(x.is_ok());
    assert_eq!(x.unwrap(), 145);
}

#[test]
fn test_empty_input() {
    let x = to_arabic(String::new());
    assert!(x.is_err());
    assert_eq!(
        format!("{:?}", x.map_err(|e| e.message())),
        "Err(\"Invalid empty string\")"
    );
}

#[test]
fn test_invalid_characters() {
    let x = to_arabic("LXS".to_string());
    assert!(x.is_err());
    assert_eq!(
        format!("{:?}", x.map_err(|e| e.message())),
        "Err(\"Input contains invalid characters\")"
    );
}

#[test]
fn test_invalid_inputs() {
    let x = to_arabic("XIL".to_string());
    assert!(x.is_err());
    assert_eq!(format!("{:?}", x.map_err(|e| e.message())), "Err(\"Invalid sequence\")");

    let x = to_arabic("VIL".to_string());
    assert!(x.is_err());
    assert_eq!(format!("{:?}", x.map_err(|e| e.message())), "Err(\"Invalid sequence\")");

    let x = to_arabic("IXC".to_string());
    assert!(x.is_err());
    assert_eq!(format!("{:?}", x.map_err(|e| e.message())), "Err(\"Invalid sequence\")");

    let x = to_arabic("XXC".to_string());
    assert!(x.is_err());
    assert_eq!(format!("{:?}", x.map_err(|e| e.message())), "Err(\"Invalid sequence\")");

    let x = to_arabic("LC".to_string());
    assert!(x.is_err());
    assert_eq!(format!("{:?}", x.map_err(|e| e.message())), "Err(\"Invalid sequence\")");

    let x = to_arabic("LDVX".to_string());
    assert!(x.is_err());
    assert_eq!(format!("{:?}", x.map_err(|e| e.message())), "Err(\"Invalid sequence\")");
}

#[test]
fn test_valid_inputs() {
    let x = to_arabic("XCIX".to_string());
    assert_eq!(x.unwrap(), 99);

    let x = to_arabic("MCMLXXXIV".to_string());
    assert_eq!(x.unwrap(), 1984);

    let x = to_arabic("MMMCMXCIX".to_string());
    assert_eq!(x.unwrap(), 3999);

    let x = to_arabic("LXXX".to_string());
    assert_eq!(x.unwrap(), 80);
}

#[test]
fn test_four_same_symbols() {
    let x = to_arabic("IIII".to_string());
    assert_eq!(x.unwrap(), 4);

    let x = to_arabic("XXXX".to_string());
    assert!(x.is_err());
    assert_eq!(format!("{:?}", x.map_err(|e| e.message())), "Err(\"Invalid sequence\")");

    let x = to_arabic("VIIII".to_string());
    assert!(x.is_err());
    assert_eq!(format!("{:?}", x.map_err(|e| e.message())), "Err(\"Invalid sequence\")");
}

#[test]
fn test_double_symbols() {
    let x = to_arabic("MM".to_string());
    assert!(x.is_ok());
    assert_eq!(x.unwrap(), 2000);

    let x = to_arabic("CC".to_string());
    assert!(x.is_ok());
    assert_eq!(x.unwrap(), 200);

    let x = to_arabic("XX".to_string());
    assert!(x.is_ok());
    assert_eq!(x.unwrap(), 20);

    let x = to_arabic("II".to_string());
    assert!(x.is_ok());
    assert_eq!(x.unwrap(), 2);

    let x = to_arabic("LL".to_string());
    assert!(x.is_err());
    assert_eq!(format!("{:?}", x.map_err(|e| e.message())), "Err(\"Invalid sequence\")");

    let x = to_arabic("DD".to_string());
    assert!(x.is_err());
    assert_eq!(format!("{:?}", x.map_err(|e| e.message())), "Err(\"Invalid sequence\")");
}

#[test]
fn test_apostrohpus() {
    let x = to_arabic("ↀ".to_string());
    assert!(x.is_ok());
    assert_eq!(x.unwrap(), 1000);

    let x = to_arabic("ↀXↀIX".to_string());
    assert!(x.is_ok());
    assert_eq!(x.unwrap(), 1999);

    let x = to_arabic("ↈIXC".to_string());
    assert!(x.is_err());

    let x = to_arabic("ↈⅠV".to_string());
    assert_eq!(x.unwrap(), 100004);
}

#[test]
fn round_trip_every_value() {
    for n in 1u64..=3999 {
        let ascii = to_roman(n, false).unwrap();
        assert_eq!(to_arabic(ascii.clone()), Ok(n), "{}", ascii);
        let unicode = to_roman(n, true).unwrap();
        assert_eq!(to_arabic(unicode.clone()), Ok(n), "{}", unicode);
    }
}

#[test]
fn encode_out_of_range() {
    assert_eq!(to_roman(0, false), Err(RomanError::OutOfRange(0)));
    assert_eq!(to_roman(4000, false), Err(RomanError::OutOfRange(4000)));
    assert_eq!(to_roman(0, true), Err(RomanError::OutOfRange(0)));
    assert_eq!(to_roman(4000, true), Err(RomanError::OutOfRange(4000)));
    assert_eq!(to_roman(u64::MAX, true), Err(RomanError::OutOfRange(u64::MAX)));
    assert_eq!(
        RomanError::OutOfRange(4000).message(),
        "The value should be between 1 and 3999 inclusive, not 4000"
    );
}

#[test]
fn encode_known_values() {
    assert_eq!(to_roman(1, false).unwrap(), "I");
    assert_eq!(to_roman(4, false).unwrap(), "IV");
    assert_eq!(to_roman(9, false).unwrap(), "IX");
    assert_eq!(to_roman(14, false).unwrap(), "XIV");
    assert_eq!(to_roman(40, false).unwrap(), "XL");
    assert_eq!(to_roman(444, false).unwrap(), "CDXLIV");
    assert_eq!(to_roman(3888, false).unwrap(), "MMMDCCCLXXXVIII");
    assert_eq!(to_roman(3999, false).unwrap(), "MMMCMXCIX");
    assert_eq!(to_roman(4, true).unwrap(), "ⅠⅤ");
    assert_eq!(to_roman(3999, true).unwrap(), "ⅯⅯⅯⅭⅯⅩⅭⅠⅩ");
}

#[test]
fn decode_errors() {
    assert_eq!(to_arabic(String::new()), Err(RomanError::EmptyInput));
    assert_eq!(to_arabic("LXS".to_string()), Err(RomanError::InvalidCharacter));
    assert_eq!(to_arabic("SIXC".to_string()), Err(RomanError::InvalidCharacter));
    assert_eq!(to_arabic("X I".to_string()), Err(RomanError::InvalidCharacter));
    assert_eq!(to_arabic("XXXX".to_string()), Err(RomanError::InvalidSequence));
    assert_eq!(to_arabic("VIIII".to_string()), Err(RomanError::InvalidSequence));
    for bad in ["LL", "DD", "XIL", "VIL", "IXC", "XXC", "LC", "VX", "LDVX"] {
        assert_eq!(to_arabic(bad.to_string()), Err(RomanError::InvalidSequence), "{}", bad);
    }
}

#[test]
fn decode_four_units_and_pairs() {
    assert_eq!(to_arabic("IIII".to_string()), Ok(4));
    assert_eq!(to_arabic("ⅠⅠⅠⅠ".to_string()), Ok(4));
    assert_eq!(to_arabic("iiii".to_string()), Ok(4));
    assert_eq!(to_arabic("MM".to_string()), Ok(2000));
    assert_eq!(to_arabic("CC".to_string()), Ok(200));
    assert_eq!(to_arabic("XX".to_string()), Ok(20));
    assert_eq!(to_arabic("II".to_string()), Ok(2));
    assert_eq!(to_arabic("III".to_string()), Ok(3));
}

#[test]
fn decode_mixed_case_and_known_values() {
    assert_eq!(to_arabic("iv".to_string()), Ok(4));
    assert_eq!(to_arabic("CvL".to_string()), Ok(145));
    assert_eq!(to_arabic("mcmlxxxiv".to_string()), Ok(1984));
    assert_eq!(to_arabic("MCMLXXXIV".to_string()), Ok(1984));
    assert_eq!(to_arabic("MMMCMXCIX".to_string()), Ok(3999));
    assert_eq!(to_arabic("XCIX".to_string()), Ok(99));
    assert_eq!(to_arabic("Ⅻ".to_string()), Err(RomanError::InvalidCharacter));
    assert_eq!(to_arabic("ⅫⅡ".to_string()), Err(RomanError::InvalidCharacter));
    assert_eq!(to_arabic("ⅩⅡ".to_string()), Ok(12));
}

#[test]
fn decode_uppercase_is_case_sensitive() {
    assert_eq!(decode_uppercase("XIV"), Ok(14));
    assert_eq!(decode_uppercase("xiv"), Err(RomanError::InvalidCharacter));
    assert_eq!(decode_uppercase(""), Err(RomanError::EmptyInput));
    assert_eq!(decode_uppercase("ↂↂↂ"), Ok(30000));
}

#[test]
fn decimal_rendering() {
    assert_eq!(to_decimal(0), "0");
    assert_eq!(to_decimal(7), "7");
    assert_eq!(to_decimal(4000), "4000");
    assert_eq!(to_decimal(u64::MAX), "18446744073709551615");
}

#[test]
fn error_messages() {
    assert_eq!(RomanError::EmptyInput.message(), "Invalid empty string");
    assert_eq!(RomanError::InvalidCharacter.message(), "Input contains invalid characters");
    assert_eq!(RomanError::InvalidSequence.message(), "Invalid sequence");
    assert_eq!(
        RomanError::Overflow.message(),
        "Value exceeds the range of 64-bit integers"
    );
    assert_eq!(
        RomanError::OutOfRange(0).message(),
        "The value should be between 1 and 3999 inclusive, not 0"
    );
}

#[test]
fn unicode_encoding_has_no_ascii_letters() {
    assert_eq!(to_roman(5, true).unwrap(), "Ⅴ");
    assert_eq!(to_roman(3888, true).unwrap(), "ⅯⅯⅯⅮⅭⅭⅭⅬⅩⅩⅩⅤⅠⅠⅠ");
    for n in 1u64..=3999 {
        let ascii = to_roman(n, false).unwrap();
        let unicode = to_roman(n, true).unwrap();
        assert!(unicode.chars().all(|c| !c.is_ascii()), "{}", unicode);
        let mapped: String = ascii
            .chars()
            .map(|c| match c {
                'I' => 'Ⅰ',
                'V' => 'Ⅴ',
                'X' => 'Ⅹ',
                'L' => 'Ⅼ',
                'C' => 'Ⅽ',
                'D' => 'Ⅾ',
                _ => 'Ⅿ',
            })
            .collect();
        assert_eq!(unicode, mapped);
    }
}

#[test]
fn only_empty_input_is_empty() {
    assert_eq!(to_arabic(String::new()), Err(RomanError::EmptyInput));
    assert_eq!(to_arabic(" ".to_string()), Err(RomanError::InvalidCharacter));
}
