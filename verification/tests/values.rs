use tiled_map::value::{
    is_decimal, is_float, is_word, is_word_in_any_case, parse_bool, parse_u32, same_bytes,
    skip_digits,
};

#[test]
fn numbers_are_read_as_the_standard_library_reads_them() {
    let samples = [
        "", "0", "1", "9", "10", "007", "+5", "+", "-", "-0", "-5", "++5", "+-5", "5+", " 5", "5 ",
        "1_000", "0x10", "1e3", "1.0", "4294967295", "4294967296", "42949672950", "+4294967295",
        "+4294967296", "00000000000000000000004294967295", "99999999999999999999999999", "12a",
        "a12", "\u{661}", "18446744073709551616", "18446744073709551615", "4294967294",
    ];
    for sample in samples {
        assert_eq!(
            parse_u32(sample.as_bytes()),
            sample.parse::<u32>().ok(),
            "{:?}",
            sample
        );
    }
}

#[test]
fn numbers_have_their_decimal_value() {
    assert_eq!(parse_u32(b"0"), Some(0));
    assert_eq!(parse_u32(b"12345"), Some(12345));
    assert_eq!(parse_u32(b"+0012"), Some(12));
    assert_eq!(parse_u32(b"4294967295"), Some(u32::MAX));
    assert_eq!(parse_u32(b"4294967296"), None);
    assert_eq!(parse_u32(&[0xff]), None);
}

#[test]
fn booleans_are_read_as_the_standard_library_reads_them() {
    let samples = ["true", "false", "", "True", "FALSE", "1", "0", "yes", "true ", " false", "t"];
    for sample in samples {
        assert_eq!(
            parse_bool(sample.as_bytes()),
            sample.parse::<bool>().ok(),
            "{:?}",
            sample
        );
    }
}

#[test]
fn floating_point_text_is_told_as_the_standard_library_tells_it() {
    let samples = [
        "", "0", "1", "32", "32.0", "32.5", ".5", "5.", ".", "+", "-", "+.", "-.5", "+5.", "1e5",
        "1E5", "1e+5", "1e-5", "1e", "1e+", "1e-", "e5", ".e5", "1.e5", ".1e5", "1.5e10", "1e5.0",
        "1e5e5", "1..5", "1.5.5", "inf", "INF", "Inf", "+inf", "-inf", "infinity", "Infinity",
        "-INFINITY", "infinit", "infinityy", "nan", "NaN", "NAN", "+nan", "-nan", "nano", "na",
        "in", "++1", "+-1", "-+1", "1+", "1-", " 1", "1 ", "1_0", "0x10", "1f32", "1.0f", "abc",
        "16", "16.25", "00016", "1e0005", "123456789012345678901234567890",
        "0.000000000000000000000000000000000000000000001", "1e400", "-1e-400", "१", "1e٣",
        "İnf", "ınf", "-", "+e5", "-e", "1e5 ", "٫5",
    ];
    for sample in samples {
        assert_eq!(
            is_float(sample.as_bytes()),
            sample.parse::<f32>().is_ok(),
            "{:?}",
            sample
        );
        assert_eq!(
            is_float(sample.as_bytes()),
            sample.parse::<f64>().is_ok(),
            "{:?}",
            sample
        );
    }
    assert!(!is_float(&[0xff]));
    assert!(!is_float(&[b'1', 0x80]));
}

#[test]
fn decimal_numbers_carry_no_sign() {
    assert!(is_decimal(b"12.5e-3"));
    assert!(is_decimal(b"7"));
    assert!(!is_decimal(b"+7"));
    assert!(!is_decimal(b"-7"));
    assert!(!is_decimal(b"inf"));
    assert!(!is_decimal(b""));
}

#[test]
fn digits_are_skipped_up_to_the_first_other_byte() {
    assert_eq!(skip_digits(b"123abc", 0), 3);
    assert_eq!(skip_digits(b"123abc", 1), 3);
    assert_eq!(skip_digits(b"123abc", 3), 3);
    assert_eq!(skip_digits(b"123abc", 6), 6);
    assert_eq!(skip_digits(b"123", 0), 3);
    assert_eq!(skip_digits(b"", 0), 0);
    assert_eq!(skip_digits(b"/0129:", 1), 5);
}

#[test]
fn words_are_compared_byte_by_byte() {
    assert!(same_bytes(b"", b""));
    assert!(same_bytes(b"map", b"map"));
    assert!(!same_bytes(b"map", b"maps"));
    assert!(!same_bytes(b"map", b"mop"));
    assert!(!same_bytes(b"map", b"Map"));
    assert!(is_word(b"layer", "layer"));
    assert!(!is_word(b"layer", "Layer"));
    assert!(!is_word(b"laye", "layer"));
    assert!(is_word("\u{e4}".as_bytes(), "\u{e4}"));
}

#[test]
fn case_is_ignored_in_the_bytes_only() {
    assert!(is_word_in_any_case(b"NaN", "nan"));
    assert!(is_word_in_any_case(b"nan", "nan"));
    assert!(is_word_in_any_case(b"INFINITY", "infinity"));
    assert!(!is_word_in_any_case(b"nan", "NAN"));
    assert!(!is_word_in_any_case(b"na", "nan"));
    assert!(!is_word_in_any_case(b"n@n", "nan"));
    assert!(is_word_in_any_case(b"@[`{", "@[`{"));
}
