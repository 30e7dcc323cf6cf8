//! Structured diagnostics: every warning and error carries a kind and a
//! document of notes and highlighted source ranges. Rendering the document
//! (colors, line framing) is a consumer's concern, not the parser's.

use vstd::prelude::*;

verus! {

/// A highlighted place in the source buffer, in byte offsets.
#[derive(Debug, Clone)]
pub enum Highlight {
    /// A byte range, optionally with a message; `marked` tells the renderer
    /// to paint it as context rather than as the subject.
    Section { start: usize, end: usize, message: Option<String>, marked: bool },
    /// A single position with a message.
    Point { at: usize, message: Option<String> },
}

/// One labelled note of a diagnostic document.
#[derive(Debug, Clone)]
pub struct Note {
    pub label: String,
    pub value: String,
}

/// A structured diagnostic document: a title, labelled notes and highlights
/// into the source buffer.
#[derive(Debug, Clone)]
pub struct Diagnostic {
    pub title: String,
    pub notes: Vec<Note>,
    pub highlights: Vec<Highlight>,
}

/// The kind of error.
#[derive(Debug, Clone, Copy, PartialEq, Eq, Structural, Hash)]
pub enum ParserErrorKind {
    NumberWithoutDigitsAfterDecimalSeparator,
    NumberWithoutDigitsAfterExponentToken,
    NumberTooBig,
    NumberTooBigExponent,
    ConstDeclarationWithoutIdentifier,
    ConstDeclarationWithoutAssignExpression,
    ConstDeclarationWithoutExpression,
    ModuleTwoStatementsInline,
    ModuleUnrecognizedEOF,
}

/// The kind of warning.
#[derive(Debug, Clone, Copy, PartialEq, Eq, Structural, Hash)]
pub enum ParserWarningKind {
    NumberWithLeadingZeroes,
    NumberWithTrailingZeroes,
}

/// The errors that parsers can throw.
#[derive(Debug, Clone)]
pub struct ParserError {
    pub kind: ParserErrorKind,
    pub log: Diagnostic,
}

/// The warnings that parsers can throw.
#[derive(Debug, Clone)]
pub struct ParserWarning {
    pub kind: ParserWarningKind,
    pub log: Diagnostic,
}

/// The name of an error kind, for the identity note of its document.
pub fn error_kind_name(kind: ParserErrorKind) -> (r: &'static str)
    ensures
        kind == ParserErrorKind::NumberWithoutDigitsAfterDecimalSeparator ==> r@
            == "NumberWithoutDigitsAfterDecimalSeparator"@,
        kind == ParserErrorKind::NumberWithoutDigitsAfterExponentToken ==> r@
            == "NumberWithoutDigitsAfterExponentToken"@,
        kind == ParserErrorKind::NumberTooBig ==> r@ == "NumberTooBig"@,
        kind == ParserErrorKind::NumberTooBigExponent ==> r@ == "NumberTooBigExponent"@,
        kind == ParserErrorKind::ConstDeclarationWithoutIdentifier ==> r@
            == "ConstDeclarationWithoutIdentifier"@,
        kind == ParserErrorKind::ConstDeclarationWithoutAssignExpression ==> r@
            == "ConstDeclarationWithoutAssignExpression"@,
        kind == ParserErrorKind::ConstDeclarationWithoutExpression ==> r@
            == "ConstDeclarationWithoutExpression"@,
        kind == ParserErrorKind::ModuleTwoStatementsInline ==> r@ == "ModuleTwoStatementsInline"@,
        kind == ParserErrorKind::ModuleUnrecognizedEOF ==> r@ == "ModuleUnrecognizedEOF"@,
{
    match kind {
        ParserErrorKind::NumberWithoutDigitsAfterDecimalSeparator => {
            "NumberWithoutDigitsAfterDecimalSeparator"
        },
        ParserErrorKind::NumberWithoutDigitsAfterExponentToken => {
            "NumberWithoutDigitsAfterExponentToken"
        },
        ParserErrorKind::NumberTooBig => "NumberTooBig",
        ParserErrorKind::NumberTooBigExponent => "NumberTooBigExponent",
        ParserErrorKind::ConstDeclarationWithoutIdentifier => "ConstDeclarationWithoutIdentifier",
        ParserErrorKind::ConstDeclarationWithoutAssignExpression => {
            "ConstDeclarationWithoutAssignExpression"
        },
        ParserErrorKind::ConstDeclarationWithoutExpression => "ConstDeclarationWithoutExpression",
        ParserErrorKind::ModuleTwoStatementsInline => "ModuleTwoStatementsInline",
        ParserErrorKind::ModuleUnrecognizedEOF => "ModuleUnrecognizedEOF",
    }
}

/// The name of a warning kind, for the identity note of its document.
pub fn warning_kind_name(kind: ParserWarningKind) -> (r: &'static str)
    ensures
        kind == ParserWarningKind::NumberWithLeadingZeroes ==> r@ == "NumberWithLeadingZeroes"@,
        kind == ParserWarningKind::NumberWithTrailingZeroes ==> r@ == "NumberWithTrailingZeroes"@,
{
    match kind {
        ParserWarningKind::NumberWithLeadingZeroes => "NumberWithLeadingZeroes",
        ParserWarningKind::NumberWithTrailingZeroes => "NumberWithTrailingZeroes",
    }
}

/// Assembles an error with its kind, a title and highlights, and the
/// identity note every error document ends with.
pub fn generate_error(kind: ParserErrorKind, title: &str, highlights: Vec<Highlight>) -> (r:
    ParserError)
    ensures
        r.kind == kind,
        r.log.title@ == title@,
        r.log.highlights == highlights,
{
    let name = error_kind_name(kind);
    let mut notes: Vec<Note> = Vec::new();
    notes.push(Note { label: "Error Id".to_owned(), value: name.to_owned() });
    ParserError { kind, log: Diagnostic { title: title.to_owned(), notes, highlights } }
}

/// Assembles a warning with its kind, a title and highlights, and the
/// identity note every warning document ends with.
pub fn generate_warning(kind: ParserWarningKind, title: &str, highlights: Vec<Highlight>) -> (r:
    ParserWarning)
    ensures
        r.kind == kind,
        r.log.title@ == title@,
        r.log.highlights == highlights,
{
    let name = warning_kind_name(kind);
    let mut notes: Vec<Note> = Vec::new();
    notes.push(Note { label: "Warning Id".to_owned(), value: name.to_owned() });
    ParserWarning { kind, log: Diagnostic { title: title.to_owned(), notes, highlights } }
}

} // verus!
