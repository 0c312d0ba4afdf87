use proc_quote_impl::literal::{classify, has_suffix, is_verbatim_text, LiteralKind};

/// What the classifier must agree with for a bare number: the first of the
/// three integer parses that succeeds.
fn by_std(text: &str) -> LiteralKind {
    if let Ok(v) = text.parse::<i32>() {
        LiteralKind::Int32(v)
    } else if let Ok(v) = text.parse::<i64>() {
        LiteralKind::Int64(v)
    } else if let Ok(v) = text.parse::<u64>() {
        LiteralKind::UInt64(v)
    } else {
        LiteralKind::Float
    }
}

#[test]
fn small_integer_is_signed_32() {
    assert_eq!(classify("5"), LiteralKind::Int32(5));
}

#[test]
fn integer_beyond_32_bits_is_signed_64() {
    assert_eq!(classify("9999999999"), LiteralKind::Int64(9999999999));
}

#[test]
fn integer_beyond_signed_64_bits_is_unsigned_64() {
    assert_eq!(classify("18446744073709551615"), LiteralKind::UInt64(18446744073709551615));
}

#[test]
fn decimal_fraction_is_float() {
    assert_eq!(classify("3.14"), LiteralKind::Float);
}

#[test]
fn integer_boundaries() {
    assert_eq!(classify("2147483647"), LiteralKind::Int32(i32::MAX));
    assert_eq!(classify("2147483648"), LiteralKind::Int64(2147483648));
    assert_eq!(classify("-2147483648"), LiteralKind::Int32(i32::MIN));
    assert_eq!(classify("-2147483649"), LiteralKind::Int64(-2147483649));
    assert_eq!(classify("9223372036854775807"), LiteralKind::Int64(i64::MAX));
    assert_eq!(classify("9223372036854775808"), LiteralKind::UInt64(9223372036854775808));
    assert_eq!(classify("-9223372036854775808"), LiteralKind::Int64(i64::MIN));
    assert_eq!(classify("-9223372036854775809"), LiteralKind::Float);
    assert_eq!(classify("18446744073709551616"), LiteralKind::Float);
    assert_eq!(classify("0"), LiteralKind::Int32(0));
    assert_eq!(classify("-0"), LiteralKind::Int32(0));
}

#[test]
fn signs_and_leading_zeros() {
    assert_eq!(classify("+5"), LiteralKind::Int32(5));
    assert_eq!(classify("-5"), LiteralKind::Int32(-5));
    assert_eq!(classify("007"), LiteralKind::Int32(7));
    assert_eq!(
        classify("000000000000000000000000000000000000000042"),
        LiteralKind::Int32(42)
    );
    assert_eq!(classify("+18446744073709551615"), LiteralKind::UInt64(u64::MAX));
    assert_eq!(classify("-18446744073709551615"), LiteralKind::Float);
}

#[test]
fn what_is_no_decimal_integer_is_float() {
    assert_eq!(classify(""), LiteralKind::Float);
    assert_eq!(classify("-"), LiteralKind::Float);
    assert_eq!(classify("+"), LiteralKind::Float);
    assert_eq!(classify("--5"), LiteralKind::Float);
    assert_eq!(classify("5-"), LiteralKind::Float);
    assert_eq!(classify(" 5"), LiteralKind::Float);
    assert_eq!(classify("1_000"), LiteralKind::Float);
    assert_eq!(classify("0xff"), LiteralKind::Float);
    assert_eq!(classify("1e10"), LiteralKind::Float);
    assert_eq!(classify("2."), LiteralKind::Float);
    assert_eq!(classify("\u{0665}"), LiteralKind::Float);
    assert_eq!(classify("999999999999999999999999999999"), LiteralKind::Float);
}

#[test]
fn classifier_agrees_with_the_integer_parsers() {
    let samples = [
        "0", "1", "9", "10", "42", "-1", "+1", "-0", "+0", "00", "-007", "2147483646",
        "2147483647", "2147483648", "-2147483647", "-2147483648", "-2147483649", "4294967295",
        "4294967296", "9223372036854775806", "9223372036854775807", "9223372036854775808",
        "-9223372036854775807", "-9223372036854775808", "-9223372036854775809",
        "18446744073709551614", "18446744073709551615", "18446744073709551616",
        "18446744073709551625", "184467440737095516150", "99999999999999999999", "", "-", "+",
        "+-1", "-+1", "1-", "1+", "1.0", ".5", "5.", "1e5", "0x10", "0b1", "0o7", "1_0", "a", "1a",
        "\u{0663}", "\u{ff11}\u{ff12}", " 1", "1 ", "\n", "3.14", "-3.14", "inf", "NaN",
    ];
    for text in samples {
        assert_eq!(classify(text), by_std(text), "for {:?}", text);
    }
}

#[test]
fn suffixed_numbers_are_verbatim() {
    for text in [
        "1u8", "1u16", "1u32", "1u64", "1u128", "1usize", "1i8", "1i16", "1i32", "1i64", "1i128",
        "1isize", "1.5f32", "1.5f64", "0xffu8", "1_000i64",
    ] {
        assert_eq!(classify(text), LiteralKind::Verbatim, "for {:?}", text);
        assert!(is_verbatim_text(text));
    }
}

#[test]
fn quoted_literals_are_verbatim() {
    for text in ["\"hello\"", "\"\"", "'c'", "'\\n'", "b\"bytes\"", "b'x'", "r\"raw\"", "r#\"raw\"#", "\"5\""] {
        assert_eq!(classify(text), LiteralKind::Verbatim, "for {:?}", text);
        assert!(is_verbatim_text(text));
    }
}

#[test]
fn ending_alone_decides_verbatim() {
    assert_eq!(classify("0xabcf32"), LiteralKind::Verbatim);
    assert_eq!(classify("u8"), LiteralKind::Verbatim);
    assert_eq!(classify("#"), LiteralKind::Verbatim);
    assert_eq!(classify("8"), LiteralKind::Int32(8));
    assert_eq!(classify("32"), LiteralKind::Int32(32));
    assert_eq!(classify("64"), LiteralKind::Int32(64));
    assert_eq!(classify("128"), LiteralKind::Int32(128));
    assert!(!is_verbatim_text("1u"));
    assert!(!is_verbatim_text("1u9"));
    assert!(!is_verbatim_text("u8 "));
    assert!(!is_verbatim_text("size"));
    assert!(!is_verbatim_text(""));
}

#[test]
fn suffix_check() {
    assert!(has_suffix("abc", "bc"));
    assert!(has_suffix("abc", "abc"));
    assert!(has_suffix("abc", ""));
    assert!(has_suffix("", ""));
    assert!(!has_suffix("abc", "ab"));
    assert!(!has_suffix("bc", "abc"));
    assert!(!has_suffix("", "a"));
    assert!(has_suffix("h\u{e9}llo", "\u{e9}llo"));
    assert!(!has_suffix("h\u{e9}llo", "ello"));
    assert!(has_suffix("\u{65e5}\u{672c}\u{8a9e}", "\u{8a9e}"));
    assert!(!has_suffix("abc", "xbc"));
    for (text, suffix) in [("1u8", "u8"), ("x", "y"), ("ab", "b"), ("aXb", "ab"), ("\u{e9}", "e")] {
        assert_eq!(has_suffix(text, suffix), text.ends_with(suffix));
    }
}
