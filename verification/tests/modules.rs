//! Tests of the module assembler: statement separation and the end of the
//! input.

use sand::parsers::diagnostics::ParserErrorKind;
use sand::parsers::input::{ParserContext, ParserInput};
use sand::parsers::module::Module;

#[test]
fn module_test_parse_ok() {
    // Case 1: empty
    let context = ParserContext::default();
    let content = "";
    let mut input = ParserInput::new_with_context_and_error(content, context);

    let result = Module::parse(&mut input).expect("[1] The parser must succeed");
    assert_eq!(result.span_content(), content, "[1] The content is incorrect");
    assert_eq!(
        result.statements().len(),
        0,
        "[1] The number of statements is incorrect"
    );

    // Case 2: 1 statement without whites
    let context = ParserContext::default();
    let content = "const id = 3";
    let mut input = ParserInput::new_with_context_and_error(content, context);

    let result = Module::parse(&mut input).expect("[2] The parser must succeed");
    assert_eq!(result.span_content(), content, "[2] The content is incorrect");
    assert_eq!(
        result.statements().len(),
        1,
        "[2] The number of statements is incorrect"
    );

    // Case 3: 1 statement with whites
    let context = ParserContext::default();
    let content = "   \n\n  const id = 3   \n\n  ";
    let mut input = ParserInput::new_with_context_and_error(content, context);

    let result = Module::parse(&mut input).expect("[3] The parser must succeed");
    assert_eq!(result.span_content(), content, "[3] The content is incorrect");
    assert_eq!(
        result.statements().len(),
        1,
        "[3] The number of statements is incorrect"
    );

    // Case 4: 3 statement with whites
    let context = ParserContext::default();
    let content = "   \n\n  const id = 3   \nconst id = 3\n  const id = 3";
    let mut input = ParserInput::new_with_context_and_error(content, context);

    let result = Module::parse(&mut input).expect("[4] The parser must succeed");
    assert_eq!(result.span_content(), content, "[4] The content is incorrect");
    assert_eq!(
        result.statements().len(),
        3,
        "[4] The number of statements is incorrect"
    );
}

#[test]
fn module_test_parse_error_not_found() {
    // The Module::parse always matches or returns another kind of error.
}

#[test]
fn test_parse_error_two_statements_inline() {
    let context = ParserContext::default();
    let content = "const id = 3 const id = 3";
    let mut input = ParserInput::new_with_context_and_error(content, context);

    let result = Module::parse(&mut input).expect_err("[1] The parser must not succeed");
    assert!(result.is_error(), "[1] The error is incorrect",);

    let (_cursor, error) = result.unwrap_error();
    assert!(
        matches!(error.kind, ParserErrorKind::ModuleTwoStatementsInline),
        "[1] The kind of error is incorrect",
    );
}

#[test]
fn test_parse_error_unrecognized_eof() {
    let context = ParserContext::default();
    let content = "const identifier = 3 ++";
    let mut input = ParserInput::new_with_context_and_error(content, context);

    let result = Module::parse(&mut input).expect_err("[1] The parser must not succeed");
    assert!(result.is_error(), "[1] The error is incorrect",);

    let (_cursor, error) = result.unwrap_error();
    assert!(
        matches!(error.kind, ParserErrorKind::ModuleUnrecognizedEOF),
        "[1] The kind of error is incorrect",
    );
}

#[test]
fn test_module_two_statements_inline_position() {
    // The inline error points at the second statement.
    let context = ParserContext::default();
    let content = "const id = 3 const id = 3";
    let mut input = ParserInput::new_with_context_and_error(content, context);

    let result = Module::parse(&mut input).expect_err("The parser must not succeed");
    let (_cursor, error) = result.unwrap_error();
    assert!(matches!(error.kind, ParserErrorKind::ModuleTwoStatementsInline));
    match &error.log.highlights[0] {
        sand::parsers::diagnostics::Highlight::Point { at, .. } => {
            assert_eq!(*at, 13, "The highlight must point at the second statement");
        },
        _ => panic!("The first highlight must be a point"),
    }
}

#[test]
fn test_module_separator_with_comment() {
    // A separator that includes a comment still counts when it breaks the
    // line, and is rejected when it does not.
    let context = ParserContext::default();
    let content = "const a = 1 # note\nconst b = 2";
    let mut input = ParserInput::new_with_context_and_error(content, context);
    let result = Module::parse(&mut input).expect("The parser must succeed");
    assert_eq!(result.statements().len(), 2);

    let context = ParserContext::default();
    let content = "const a = 1 \t const b = 2";
    let mut input = ParserInput::new_with_context_and_error(content, context);
    let result = Module::parse(&mut input).expect_err("The parser must not succeed");
    let (_cursor, error) = result.unwrap_error();
    assert!(matches!(error.kind, ParserErrorKind::ModuleTwoStatementsInline));
}

#[test]
fn test_module_statement_error_propagates() {
    // A hard error inside a statement is not swallowed by the module.
    let context = ParserContext::default();
    let content = "const id = 1.";
    let mut input = ParserInput::new_with_context_and_error(content, context);
    let result = Module::parse(&mut input).expect_err("The parser must not succeed");
    let (_cursor, error) = result.unwrap_error();
    assert!(matches!(
        error.kind,
        ParserErrorKind::NumberWithoutDigitsAfterDecimalSeparator
    ));
}

#[test]
fn test_module_round_trip_value() {
    // Parsing the span content of a parsed number yields the same value.
    let context = ParserContext::default();
    let content = "const id = 1.10e-0\nconst other = 0.5e3";
    let mut input = ParserInput::new_with_context_and_error(content, context);
    let module = Module::parse(&mut input).expect("The parser must succeed");

    for statement in module.statements() {
        let declaration = statement.clone().unwrap_const_declaration();
        let number = declaration.expression.unwrap_literal().unwrap_number();
        let text = number.span_content().to_owned();

        let context = ParserContext::default();
        let mut reparse_input = ParserInput::new_with_context_and_error(text.as_str(), context);
        let reparsed =
            sand::parsers::expressions::literals::number::Number::parse_decimal(&mut reparse_input)
                .expect("The reparse must succeed");
        assert_eq!(
            reparsed.value().digits(),
            number.value().digits(),
            "The reparsed mantissa differs"
        );
        assert_eq!(
            reparsed.value().exponent(),
            number.value().exponent(),
            "The reparsed exponent differs"
        );
    }
}
