//! Tests of the decimal number literal: values, errors and warnings.

use sand::parsers::diagnostics::{ParserErrorKind, ParserWarningKind};
use sand::parsers::expressions::literals::number::Number;
use sand::parsers::input::{ParserContext, ParserIgnoreConfig, ParserInput};

#[test]
fn test_parse_decimal_integer_ok() {
    // Case 1: all digits
    let context = ParserContext::default();
    let content = "1234567890";
    let mut input = ParserInput::new_with_context_and_error(content, context);

    let result = Number::parse_decimal(&mut input).expect("[1] The parser must succeed");
    assert_eq!(result.span_content(), content, "[1] The content is incorrect");
    // 1234567890 == 123456789 * 10^1 in canonical decimal form.
    assert_eq!(
        result.value().digits(),
        &vec![1, 2, 3, 4, 5, 6, 7, 8, 9],
        "[1] The value is incorrect"
    );
    assert_eq!(result.value().exponent(), 1, "[1] The value is incorrect");
}

#[test]
fn test_parse_decimal_real_ok() {
    // Case 1: integer
    let context = ParserContext::default();
    let content = "1234567890";
    let mut input = ParserInput::new_with_context_and_error(content, context);

    let result = Number::parse_decimal(&mut input).expect("[1] The parser must succeed");
    assert_eq!(result.span_content(), content, "[1] The content is incorrect");
    assert_eq!(
        result.value().digits(),
        &vec![1, 2, 3, 4, 5, 6, 7, 8, 9],
        "[1] The value is incorrect"
    );
    assert_eq!(result.value().exponent(), 1, "[1] The value is incorrect");

    // Case 2: with decimal part
    let context = ParserContext::default();
    let content = "1234567890.0123456789";
    let mut input = ParserInput::new_with_context_and_error(content, context);

    let result = Number::parse_decimal(&mut input).expect("[2] The parser must succeed");
    assert_eq!(result.span_content(), content, "[2] The content is incorrect");
    // 12345678900123456789 / 10^10 in canonical decimal form.
    assert_eq!(
        result.value().digits(),
        &vec![1, 2, 3, 4, 5, 6, 7, 8, 9, 0, 0, 1, 2, 3, 4, 5, 6, 7, 8, 9],
        "[2] The value is incorrect"
    );
    assert_eq!(result.value().exponent(), -10, "[2] The value is incorrect");

    // Case 3: with exponent
    for exp_char in "eE".chars() {
        for sign_char in &["", "+", "-"] {
            let context = ParserContext::default();
            let content = format!("5{}{}10", exp_char, sign_char);
            let mut input = ParserInput::new_with_context_and_error(content.as_str(), context);

            let result = Number::parse_decimal(&mut input)
                .expect(format!("[3.{}.{}] The parser must succeed", exp_char, sign_char).as_str());
            assert_eq!(
                result.span_content(),
                content,
                "[3.{}.{}] The content is incorrect",
                exp_char,
                sign_char
            );
            // 5 * 10^(+-10) in canonical decimal form.
            let expected_exponent = if *sign_char == "-" { -10 } else { 10 };
            assert_eq!(
                result.value().digits(),
                &vec![5],
                "[3.{}.{}] The value is incorrect",
                exp_char,
                sign_char
            );
            assert_eq!(
                result.value().exponent(),
                expected_exponent,
                "[3.{}.{}] The value is incorrect",
                exp_char,
                sign_char
            );
        }
    }

    // Case 4: all parts
    for exp_char in "eE".chars() {
        for sign_char in &["", "+", "-"] {
            let context = ParserContext::default();
            let content = format!("5.2564{}{}10", exp_char, sign_char);
            let mut input = ParserInput::new_with_context_and_error(content.as_str(), context);

            let result = Number::parse_decimal(&mut input)
                .expect(format!("[4.{}.{}] The parser must succeed", exp_char, sign_char).as_str());
            assert_eq!(
                result.span_content(),
                content,
                "[4.{}.{}] The content is incorrect",
                exp_char,
                sign_char
            );
            // 52564/10^4 * 10^(+-10) in canonical decimal form.
            let expected_exponent = if *sign_char == "-" { -14 } else { 6 };
            assert_eq!(
                result.value().digits(),
                &vec![5, 2, 5, 6, 4],
                "[4.{}.{}] The value is incorrect",
                exp_char,
                sign_char
            );
            assert_eq!(
                result.value().exponent(),
                expected_exponent,
                "[4.{}.{}] The value is incorrect",
                exp_char,
                sign_char
            );
        }
    }
}

#[test]
fn test_parse_decimal_error_not_found() {
    // Case 1: other format
    let context = ParserContext::default();
    let content = "identifier";
    let mut input = ParserInput::new_with_context_and_error(content, context);

    let result = Number::parse_decimal(&mut input).expect_err("[1] The parser must not succeed");
    assert!(result.is_not_found(), "[1] The error is incorrect");

    // Case 2: empty
    let context = ParserContext::default();
    let content = "";
    let mut input = ParserInput::new_with_context_and_error(content, context);

    let result = Number::parse_decimal(&mut input).expect_err("[2] The parser must not succeed");
    assert!(result.is_not_found(), "[2] The error is incorrect");
}

#[test]
fn test_parse_decimal_error_too_big() {
    // This error is generated when numbers are u32::MAX length, therefore the
    // number must occupy 4GiB of memory. Due to that, this error is tested
    // manually.
    let context = ParserContext::default();
    let content = "100";
    let mut input = ParserInput::new_with_context_and_error(content, context);

    let init_cursor = input.save_cursor();
    input.advance();
    input.advance();
    input.advance();

    let error = Number::error_too_big(&input, &init_cursor);
    assert!(
        matches!(error.kind, ParserErrorKind::NumberTooBig),
        "The kind of error is incorrect"
    );
}

#[test]
fn test_parse_decimal_error_too_big_exponent() {
    // Case 1: positive overflow
    let context = ParserContext::default();
    let content = format!("1e{}", i32::MAX as i64 + 1);
    let mut input = ParserInput::new_with_context_and_error(content.as_str(), context);

    let result = Number::parse_decimal(&mut input).expect_err("[1] The parser must not succeed");
    assert!(result.is_error(), "[1] The error is incorrect");

    let (_cursor, error) = result.unwrap_error();
    assert!(
        matches!(error.kind, ParserErrorKind::NumberTooBigExponent),
        "[1] The kind of error is incorrect"
    );

    // Case 2: negative overflow
    let context = ParserContext::default();
    let content = format!("1e{}", i32::MIN as i64 - 1);
    let mut input = ParserInput::new_with_context_and_error(content.as_str(), context);

    let result = Number::parse_decimal(&mut input).expect_err("[2] The parser must not succeed");
    assert!(result.is_error(), "[2] The error is incorrect");

    let (_cursor, error) = result.unwrap_error();
    assert!(
        matches!(error.kind, ParserErrorKind::NumberTooBigExponent),
        "[2] The kind of error is incorrect"
    );
}

#[test]
fn test_parse_decimal_error_without_digits_after_decimal_separator() {
    let context = ParserContext::default();
    let content = "1.";
    let mut input = ParserInput::new_with_context_and_error(content, context);

    let result = Number::parse_decimal(&mut input).expect_err("The parser must not succeed");
    assert!(result.is_error(), "The error is incorrect");

    let (_cursor, error) = result.unwrap_error();
    assert!(
        matches!(
            error.kind,
            ParserErrorKind::NumberWithoutDigitsAfterDecimalSeparator
        ),
        "[1] The kind of error is incorrect"
    );
}

#[test]
fn test_parse_decimal_error_without_digits_after_exponent_token() {
    for exp_char in "eE".chars() {
        for sign_char in &["", "+", "-"] {
            let context = ParserContext::default();
            let content = format!("1{}{}", exp_char, sign_char);
            let mut input = ParserInput::new_with_context_and_error(content.as_str(), context);

            let result = Number::parse_decimal(&mut input).expect_err(
                format!("[1.{}.{}] The parser must not succeed", exp_char, sign_char).as_str(),
            );
            assert!(
                result.is_error(),
                "[1.{}.{}] The error is incorrect",
                exp_char,
                sign_char
            );

            let (_cursor, error) = result.unwrap_error();
            assert!(
                matches!(
                    error.kind,
                    ParserErrorKind::NumberWithoutDigitsAfterExponentToken
                ),
                "[1.{}.{}] The kind of error is incorrect",
                exp_char,
                sign_char
            );
        }
    }
}

#[test]
fn test_parse_decimal_warning_leading_zeroes_integer() {
    // Case: 0
    let context = ParserContext::default();
    let content = "0";
    let mut input = ParserInput::new_with_context_and_error(content, context);

    Number::parse_decimal(&mut input).expect("[0] The parser must succeed");

    let warnings = input.context().warnings();
    assert!(warnings.is_empty(), "[0] The number of warnings is incorrect",);

    // Cases: leading zeroes
    for (i, content) in ["000", "01.123", "0001e+3"].iter().enumerate() {
        let i = i + 1;
        let context = ParserContext::default();
        let mut input = ParserInput::new_with_context_and_error(content, context);

        Number::parse_decimal(&mut input)
            .expect(format!("[{}] The parser must succeed", i).as_str());

        let warnings = input.context().warnings();
        assert_eq!(
            warnings.len(),
            1,
            "[{}] The number of warnings is incorrect",
            i
        );

        let warning = warnings.first().unwrap();
        assert!(
            matches!(warning.kind, ParserWarningKind::NumberWithLeadingZeroes),
            "[{}] The kind of warning is incorrect",
            i
        );
    }
}

#[test]
fn test_parse_decimal_warning_leading_zeroes_exponent() {
    for (i, content) in [
        "1e01", "1e0001", "1e+01", "1e+0001", "1e-01", "1e-0001", "1e0", "1e000", "1e+0", "1e+000",
        "1e-0", "1e-000",
    ]
    .iter()
    .enumerate()
    {
        let context = ParserContext::default();
        let mut input = ParserInput::new_with_context_and_error(content, context);

        Number::parse_decimal(&mut input)
            .expect(format!("[{}] The parser must succeed", i).as_str());

        let warnings = input.context().warnings();
        assert_eq!(
            warnings.len(),
            1,
            "[{}] The number of warnings is incorrect",
            i
        );

        let warning = warnings.first().unwrap();
        assert!(
            matches!(warning.kind, ParserWarningKind::NumberWithLeadingZeroes),
            "[{}] The kind of warning is incorrect",
            i
        );
    }
}

#[test]
fn test_parse_decimal_warning_trailing_zeroes() {
    for (i, content) in ["1.10", "1.1000", "1.0", "1.0000", "2.1000e4", "2.0000e4"]
        .iter()
        .enumerate()
    {
        let context = ParserContext::default();
        let mut input = ParserInput::new_with_context_and_error(content, context);

        Number::parse_decimal(&mut input)
            .expect(format!("[{}] The parser must succeed", i).as_str());

        let warnings = input.context().warnings();
        assert_eq!(
            warnings.len(),
            1,
            "[{}] The number of warnings is incorrect",
            i
        );

        let warning = warnings.first().unwrap();
        assert!(
            matches!(warning.kind, ParserWarningKind::NumberWithTrailingZeroes),
            "[{}] The kind of warning is incorrect",
            i
        );
    }
}

#[test]
fn test_parse_decimal_redundant_exponent_value() {
    // "1.10e-0" denotes 11/10 and earns both zero warnings: the redundant
    // exponent and the trailing zero of the fraction.
    let context = ParserContext::default();
    let content = "1.10e-0";
    let mut input = ParserInput::new_with_context_and_error(content, context);

    let result = Number::parse_decimal(&mut input).expect("The parser must succeed");
    assert_eq!(result.span_content(), content, "The content is incorrect");
    assert_eq!(result.value().digits(), &vec![1, 1], "The value is incorrect");
    assert_eq!(result.value().exponent(), -1, "The value is incorrect");

    let warnings = input.context().warnings();
    assert_eq!(warnings.len(), 2, "The number of warnings is incorrect");
    assert!(
        matches!(warnings[0].kind, ParserWarningKind::NumberWithLeadingZeroes),
        "The kind of the first warning is incorrect"
    );
    assert!(
        matches!(warnings[1].kind, ParserWarningKind::NumberWithTrailingZeroes),
        "The kind of the second warning is incorrect"
    );
}

#[test]
fn test_parse_decimal_frac_too_big() {
    // The fractional part, trailing zeros trimmed, exceeds u32::MAX.
    let context = ParserContext::default();
    let content = "1.42949672960";
    let mut input = ParserInput::new_with_context_and_error(content, context);

    let result = Number::parse_decimal(&mut input).expect_err("The parser must not succeed");
    assert!(result.is_error(), "The error is incorrect");
    let (_cursor, error) = result.unwrap_error();
    assert!(
        matches!(error.kind, ParserErrorKind::NumberTooBig),
        "The kind of error is incorrect"
    );

    // One below the bound still parses.
    let context = ParserContext::default();
    let content = "1.4294967295";
    let mut input = ParserInput::new_with_context_and_error(content, context);
    let result = Number::parse_decimal(&mut input).expect("The parser must succeed");
    assert_eq!(result.value().exponent(), -10, "The value is incorrect");
}

#[test]
fn test_parse_decimal_ignore_flags() {
    let mut ignore = ParserIgnoreConfig::new();
    ignore.number_leading_zeroes = true;
    ignore.number_trailing_zeroes = true;
    let context = ParserContext::new(None, ignore);
    let content = "01.10e-0";
    let mut input = ParserInput::new_with_context_and_error(content, context);

    Number::parse_decimal(&mut input).expect("The parser must succeed");
    assert!(
        input.context().warnings().is_empty(),
        "The warnings must be suppressed"
    );
}

#[test]
fn test_warning_emitters_respect_ignore() {
    // A direct call with the ignore flags set leaves the context untouched.
    let mut ignore = ParserIgnoreConfig::new();
    ignore.number_leading_zeroes = true;
    ignore.number_trailing_zeroes = true;
    let context = ParserContext::new(None, ignore);
    let content = "1.10";
    let mut input = ParserInput::new_with_context_and_error(content, context);
    let init = input.save_cursor();
    Number::warning_trailing_zeroes(&mut input, &init, &vec![1, 0]);
    Number::warning_leading_zeroes_integer_part(&mut input, &init, &vec![0, 1]);
    Number::warning_leading_zeroes_exponent(&mut input, &init, &vec![0]);
    assert!(
        input.context().warnings().is_empty(),
        "the ignore flags must suppress every report"
    );

    // With the flags clear, a reporter fires exactly when its zeros are
    // there.
    let context = ParserContext::default();
    let mut input = ParserInput::new_with_context_and_error(content, context);
    let init = input.save_cursor();
    Number::warning_trailing_zeroes(&mut input, &init, &vec![1]);
    assert!(
        input.context().warnings().is_empty(),
        "a fraction without trailing zeros earns nothing"
    );
    Number::warning_trailing_zeroes(&mut input, &init, &vec![1, 0]);
    assert_eq!(input.context().warnings().len(), 1);
    assert!(matches!(
        input.context().warnings()[0].kind,
        ParserWarningKind::NumberWithTrailingZeroes
    ));
}
