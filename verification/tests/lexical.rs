//! Tests of the lexical nodes: comments, whitespace, identifiers and module
//! paths.

use sand::parsers::commons::comments::Comment;
use sand::parsers::commons::identifier::Identifier;
use sand::parsers::commons::whitespaces::Whitespace;
use sand::parsers::expressions::paths::ModulePath;
use sand::parsers::input::{ParserContext, ParserInput};

#[test]
fn comments_test_parse_ok() {
    // Case 1: terminated by eof
    let context = ParserContext::default();
    let content = "# This is a test  ";
    let mut input = ParserInput::new_with_context_and_error(content, context);

    let result = Comment::parse(&mut input).expect("[1] The parser must succeed");
    assert_eq!(result.span_content(), content, "[1] The content is incorrect");
    assert_eq!(
        result.message(),
        " This is a test  ",
        "[1] The message is incorrect"
    );

    // Case 2: terminated by \n
    let context = ParserContext::default();
    let content = "# This is a test\n content";
    let mut input = ParserInput::new_with_context_and_error(content, context);

    let result = Comment::parse(&mut input).expect("[2] The parser must succeed");
    assert_eq!(
        result.span_content(),
        "# This is a test",
        "[2] The content is incorrect"
    );
    assert_eq!(
        result.message(),
        " This is a test",
        "[2] The message is incorrect"
    );

    // Case 3: empty
    let context = ParserContext::default();
    let content = "#";
    let mut input = ParserInput::new_with_context_and_error(content, context);

    let result = Comment::parse(&mut input).expect("[3] The parser must succeed");
    assert_eq!(result.span_content(), "#", "[3] The content is incorrect");
    assert_eq!(result.message(), "", "[3] The message is incorrect");

    // Case 4: blank
    let context = ParserContext::default();
    let content = "#  \t  ";
    let mut input = ParserInput::new_with_context_and_error(content, context);

    let result = Comment::parse(&mut input).expect("[4] The parser must succeed");
    assert_eq!(result.span_content(), "#  \t  ", "[4] The content is incorrect");
    assert_eq!(result.message(), "  \t  ", "[4] The message is incorrect");

    // Case 5: without space
    let context = ParserContext::default();
    let content = "#This is a comment";
    let mut input = ParserInput::new_with_context_and_error(content, context);

    let result = Comment::parse(&mut input).expect("[5] The parser must succeed");
    assert_eq!(
        result.span_content(),
        "#This is a comment",
        "[5] The content is incorrect"
    );
    assert_eq!(
        result.message(),
        "This is a comment",
        "[5] The message is incorrect"
    );
}

#[test]
fn comments_test_parse_error_not_found() {
    // Case 1: other format
    let context = ParserContext::default();
    let content = "identifier";
    let mut input = ParserInput::new_with_context_and_error(content, context);

    let result = Comment::parse(&mut input).expect_err("[1] The parser must not succeed");
    assert!(result.is_not_found(), "[1] The error is incorrect");

    // Case 2: empty
    let context = ParserContext::default();
    let content = "";
    let mut input = ParserInput::new_with_context_and_error(content, context);

    let result = Comment::parse(&mut input).expect_err("[2] The parser must not succeed");
    assert!(result.is_not_found(), "[2] The error is incorrect");

    // Case 3: start by a forbidden char
    for char in "[{(+-".chars() {
        let context = ParserContext::default();
        let content = format!("#{}", char);
        let mut input = ParserInput::new_with_context_and_error(content.as_str(), context);

        let result = Comment::parse(&mut input)
            .expect_err(format!("[3.{}] The parser must not succeed", char).as_str());
        assert!(result.is_not_found(), "[3.{}] The error is incorrect", char);
    }
}

#[test]
fn identifier_test_parse_ok() {
    // Case 1: head
    let context = ParserContext::default();
    let content = "a";
    let mut input = ParserInput::new_with_context_and_error(content, context);

    let result = Identifier::parse(&mut input).expect("[1] The parser must succeed");
    assert_eq!(result.span_content(), content, "[1] The content is incorrect");

    // Case 2: head head+
    let context = ParserContext::default();
    let content = "thisIsATest";
    let mut input = ParserInput::new_with_context_and_error(content, context);

    let result = Identifier::parse(&mut input).expect("[2] The parser must succeed");
    assert_eq!(result.span_content(), content, "[2] The content is incorrect");

    // Case 3: head body+
    let context = ParserContext::default();
    let content = "test0123845";
    let mut input = ParserInput::new_with_context_and_error(content, context);

    let result = Identifier::parse(&mut input).expect("[3] The parser must succeed");
    assert_eq!(result.span_content(), content, "[3] The content is incorrect");

    // Case 4: special characters
    let context = ParserContext::default();
    let content = "\u{FDF0}\u{20D0}";
    let mut input = ParserInput::new_with_context_and_error(content, context);

    let result = Identifier::parse(&mut input).expect("[4] The parser must succeed");
    assert_eq!(result.span_content(), content, "[4] The content is incorrect");
}

#[test]
fn identifier_test_parse_error_not_found() {
    // Case 1: other element
    let context = ParserContext::default();
    let content = "# comment";
    let mut input = ParserInput::new_with_context_and_error(content, context);

    let result = Identifier::parse(&mut input).expect_err("[1] The parser must not succeed");
    assert!(result.is_not_found(), "[1] The error is incorrect");

    // Case 2: empty
    let context = ParserContext::default();
    let content = "";
    let mut input = ParserInput::new_with_context_and_error(content, context);

    let result = Identifier::parse(&mut input).expect_err("[2] The parser must not succeed");
    assert!(result.is_not_found(), "[2] The error is incorrect");
}

#[test]
fn test_read_keyword() {
    // Case 1: ok
    let context = ParserContext::default();
    let content = "const x";
    let mut input = ParserInput::new_with_context_and_error(content, context);

    let _ = Identifier::read_keyword(&mut input, "const").expect("[1] The parser must succeed");
    assert_eq!(
        input.byte_offset(),
        "const".len(),
        "[1] The byte_offset is incorrect"
    );

    // Case 2: nok
    let context = ParserContext::default();
    let content = "constant";
    let mut input = ParserInput::new_with_context_and_error(content, context);

    let result =
        Identifier::read_keyword(&mut input, "const").expect_err("[2] The parser must not succeed");
    assert!(result.is_not_found(), "[2] The error is incorrect");
}

#[test]
fn whitespaces_test_parse_ok() {
    // Case 1: only whitespaces
    let context = ParserContext::default();
    let content = "  \t\n  \r\nidentifier";
    let mut input = ParserInput::new_with_context_and_error(content, context);

    let result = Whitespace::parse(&mut input).expect("[1] The parser must succeed");
    assert_eq!(
        result.span_content(),
        "  \t\n  \r\n",
        "[1] The content is incorrect"
    );

    // Case 2: whitespaces comment whitespaces
    let context = ParserContext::default();
    let content = "  # This is a test\n content";
    let mut input = ParserInput::new_with_context_and_error(content, context);

    let result = Whitespace::parse(&mut input).expect("[2] The parser must succeed");
    assert_eq!(
        result.span_content(),
        "  # This is a test\n ",
        "[2] The content is incorrect"
    );

    // Case 3: comment whitespaces
    let context = ParserContext::default();
    let content = "# This is a test\n\n\r\n content";
    let mut input = ParserInput::new_with_context_and_error(content, context);

    let result = Whitespace::parse(&mut input).expect("[3] The parser must succeed");
    assert_eq!(
        result.span_content(),
        "# This is a test\n\n\r\n ",
        "[3] The content is incorrect"
    );
}

#[test]
fn whitespaces_test_parse_error_not_found() {
    // Case 1: other element
    let context = ParserContext::default();
    let content = "identifier";
    let mut input = ParserInput::new_with_context_and_error(content, context);

    let result = Whitespace::parse(&mut input).expect_err("[1] The parser must not succeed");
    assert!(result.is_not_found(), "[1] The error is incorrect");

    // Case 2: empty
    let context = ParserContext::default();
    let content = "";
    let mut input = ParserInput::new_with_context_and_error(content, context);

    let result = Whitespace::parse(&mut input).expect_err("[2] The parser must not succeed");
    assert!(result.is_not_found(), "[2] The error is incorrect");
}

#[test]
fn test_parse_incorrect() {
    // Case 1: other element
    let context = ParserContext::default();
    let content = "identifier";
    let mut input = ParserInput::new_with_context_and_error(content, context);

    let result = Whitespace::parse(&mut input).expect_err("[1] The parser must not succeed");
    assert!(result.is_not_found(), "[1] The error is incorrect");

    // Case 2: empty
    let context = ParserContext::default();
    let content = "";
    let mut input = ParserInput::new_with_context_and_error(content, context);

    let result = Whitespace::parse(&mut input).expect_err("[2] The parser must not succeed");
    assert!(result.is_not_found(), "[2] The error is incorrect");
}

#[test]
fn test_whitespace_multiline() {
    let context = ParserContext::default();
    let content = " \n ";
    let mut input = ParserInput::new_with_context_and_error(content, context);
    let result = Whitespace::parse(&mut input).expect("The parser must succeed");
    assert!(result.is_multiline(), "The whitespace must be multiline");

    let context = ParserContext::default();
    let content = " \t ";
    let mut input = ParserInput::new_with_context_and_error(content, context);
    let result = Whitespace::parse(&mut input).expect("The parser must succeed");
    assert!(!result.is_multiline(), "The whitespace must not be multiline");
}

#[test]
fn module_path_test_parse_ok() {
    // Case 1: single
    let context = ParserContext::default();
    let content = "id1::";
    let mut input = ParserInput::new_with_context_and_error(content, context);

    let result = ModulePath::parse(&mut input).expect("[1] The parser must succeed");
    assert_eq!(result.span_content(), content, "[1] The content is incorrect");
    assert_eq!(result.parts(), vec!["id1"], "[1] The parts are incorrect");

    // Case 2: single with terminator
    let context = ParserContext::default();
    let content = "id1::id_terminator";
    let mut input = ParserInput::new_with_context_and_error(content, context);

    let result = ModulePath::parse(&mut input).expect("[2] The parser must succeed");
    assert_eq!(result.span_content(), "id1::", "[2] The content is incorrect");
    assert_eq!(result.parts(), vec!["id1"], "[2] The parts are incorrect");

    // Case 3: multiple
    let context = ParserContext::default();
    let content = "long::path::to::module";
    let mut input = ParserInput::new_with_context_and_error(content, context);

    let result = ModulePath::parse(&mut input).expect("[3] The parser must succeed");
    assert_eq!(
        result.span_content(),
        "long::path::to::",
        "[3] The content is incorrect"
    );
    assert_eq!(
        result.parts(),
        vec!["long", "path", "to"],
        "[3] The parts are incorrect"
    );
}

#[test]
fn module_path_test_parse_error_not_found() {
    // Case 1: other format
    let context = ParserContext::default();
    let content = "#[tag]";
    let mut input = ParserInput::new_with_context_and_error(content, context);

    let result = ModulePath::parse(&mut input).expect_err("[1] The parser must not succeed");
    assert!(result.is_not_found(), "[1] The error is incorrect");

    // Case 2: empty
    let context = ParserContext::default();
    let content = "";
    let mut input = ParserInput::new_with_context_and_error(content, context);

    let result = ModulePath::parse(&mut input).expect_err("[2] The parser must not succeed");
    assert!(result.is_not_found(), "[2] The error is incorrect");

    // Case 3: identifier
    let context = ParserContext::default();
    let content = "identifier";
    let mut input = ParserInput::new_with_context_and_error(content, context);

    let result = ModulePath::parse(&mut input).expect_err("[3] The parser must not succeed");
    assert!(result.is_not_found(), "[3] The error is incorrect");

    // Case 4: single semicolon
    let context = ParserContext::default();
    let content = "id:a";
    let mut input = ParserInput::new_with_context_and_error(content, context);

    let result = ModulePath::parse(&mut input).expect_err("[4] The parser must not succeed");
    assert!(result.is_not_found(), "[4] The error is incorrect");
}
