//! Tests of expressions, literals, statements and constant declarations.

use sand::parsers::diagnostics::ParserErrorKind;
use sand::parsers::expressions::Expression;
use sand::parsers::expressions::literals::Literal;
use sand::parsers::input::{ParserContext, ParserInput};
use sand::parsers::statements::const_declaration::ConstDeclaration;
use sand::parsers::statements::Statement;

#[test]
fn mod_test_parse_literal() {
    let context = ParserContext::default();
    let content = "215";
    let mut input = ParserInput::new_with_context_and_error(content, context);

    let result = Expression::parse(&mut input).expect("The parser must succeed");
    assert_eq!(result.span_content(), content, "The content is incorrect");
    assert!(result.is_literal(), "The type of expression is incorrect");
}

#[test]
fn test_parse_number() {
    let context = ParserContext::default();
    let content = "215";
    let mut input = ParserInput::new_with_context_and_error(content, context);

    let result = Literal::parse(&mut input).expect("The parser must succeed");
    assert_eq!(result.span_content(), content, "The content is incorrect");
    assert!(result.is_number(), "The type of literal is incorrect");

    let result = result.unwrap_number();
    assert_eq!(result.value().digits(), &vec![2, 1, 5], "The value is incorrect");
    assert_eq!(result.value().exponent(), 0, "The value is incorrect");
}

#[test]
fn test_parse_const_declaration() {
    let context = ParserContext::default();
    let content = "const identifier = 23";
    let mut input = ParserInput::new_with_context_and_error(content, context);

    let result = Statement::parse(&mut input).expect("The parser must succeed");
    assert_eq!(result.span_content(), content, "The content is incorrect");
    assert!(
        result.is_const_declaration(),
        "The type of expression is incorrect"
    );
}

#[test]
fn const_declaration_test_parse_ok() {
    // Case 1: normal
    let context = ParserContext::default();
    let content = "const identifier = 32; xxx";
    let mut input = ParserInput::new_with_context_and_error(content, context);

    let result = ConstDeclaration::parse(&mut input).expect("[1] The parser must succeed");
    assert_eq!(
        result.span_content(),
        "const identifier = 32",
        "[1] The content is incorrect"
    );
    assert_eq!(
        result.identifier().span_content(),
        "identifier",
        "[1] The identifier is incorrect"
    );

    let expression = result.expression;
    assert!(
        matches!(expression, Expression::Literal(Literal::Number(_))),
        "[1] The expression is incorrect"
    );

    let number = expression.unwrap_literal().unwrap_number();
    assert_eq!(
        number.value().digits(),
        &vec![3, 2],
        "[1] The number is incorrect"
    );
    assert_eq!(number.value().exponent(), 0, "[1] The number is incorrect");
}

#[test]
fn const_declaration_test_parse_error_not_found() {
    // Case 1: other element
    let context = ParserContext::default();
    let content = "# comment";
    let mut input = ParserInput::new_with_context_and_error(content, context);

    let result = ConstDeclaration::parse(&mut input).expect_err("[1] The parser must not succeed");
    assert!(result.is_not_found(), "[1] The error is incorrect");

    // Case 2: empty
    let context = ParserContext::default();
    let content = "";
    let mut input = ParserInput::new_with_context_and_error(content, context);

    let result = ConstDeclaration::parse(&mut input).expect_err("[2] The parser must not succeed");
    assert!(result.is_not_found(), "[2] The error is incorrect");

    // Case 3: not a keyword
    let context = ParserContext::default();
    let content = "constant identifier";
    let mut input = ParserInput::new_with_context_and_error(content, context);

    let result = ConstDeclaration::parse(&mut input).expect_err("[3] The parser must not succeed");
    assert!(result.is_not_found(), "[3] The error is incorrect");
}

#[test]
fn test_parse_error_without_identifier() {
    let context = ParserContext::default();
    let content = "const";
    let mut input = ParserInput::new_with_context_and_error(content, context);

    let result = ConstDeclaration::parse(&mut input).expect_err("[1] The parser must not succeed");
    assert!(result.is_error(), "[1] The error is incorrect",);

    let (_cursor, error) = result.unwrap_error();
    assert!(
        matches!(error.kind, ParserErrorKind::ConstDeclarationWithoutIdentifier),
        "[1] The kind of error is incorrect",
    );
}

#[test]
fn test_parse_error_without_assign_expression() {
    let context = ParserContext::default();
    let content = "const identifier";
    let mut input = ParserInput::new_with_context_and_error(content, context);

    let result = ConstDeclaration::parse(&mut input).expect_err("[1] The parser must not succeed");
    assert!(result.is_error(), "[1] The error is incorrect",);

    let (_cursor, error) = result.unwrap_error();
    assert!(
        matches!(
            error.kind,
            ParserErrorKind::ConstDeclarationWithoutAssignExpression
        ),
        "[1] The kind of error is incorrect",
    );
}

#[test]
fn test_parse_error_without_expression() {
    let context = ParserContext::default();
    let content = "const identifier=";
    let mut input = ParserInput::new_with_context_and_error(content, context);

    let result = ConstDeclaration::parse(&mut input).expect_err("[1] The parser must not succeed");
    assert!(result.is_error(), "[1] The error is incorrect",);

    let (_cursor, error) = result.unwrap_error();
    assert!(
        matches!(error.kind, ParserErrorKind::ConstDeclarationWithoutExpression),
        "[1] The kind of error is incorrect",
    );
}

#[test]
fn test_const_declaration_scenario() {
    // The declaration stops before the semicolon; the number keeps its
    // exact value.
    let context = ParserContext::default();
    let content = "const id = 32; xxx";
    let mut input = ParserInput::new_with_context_and_error(content, context);

    let result = ConstDeclaration::parse(&mut input).expect("The parser must succeed");
    assert_eq!(result.span_content(), "const id = 32", "The content is incorrect");
    assert_eq!(
        result.identifier().span_content(),
        "id",
        "The identifier is incorrect"
    );
    let number = result.expression.unwrap_literal().unwrap_number();
    assert_eq!(number.value().digits(), &vec![3, 2], "The value is incorrect");
    assert_eq!(number.value().exponent(), 0, "The value is incorrect");
}
