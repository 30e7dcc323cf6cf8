//! The module assembler: statements separated by multiline whitespace, then
//! the end of the input.

use vstd::prelude::*;

use crate::parsers::diagnostics::{generate_error, Highlight, ParserError, ParserErrorKind};
use crate::parsers::commons::whitespaces::{spec_ws_covers, spec_ws_end, Whitespace};
use crate::parsers::statements::const_declaration::{
    lemma_const_declaration_positions, spec_const_declaration_end, spec_const_declaration_error,
    spec_const_declaration_ok, spec_const_declaration_shape, spec_const_keyword_at,
    spec_decl_expr_start, spec_is_const_declaration_error, spec_is_expression_error,
};
use crate::parsers::expressions::literals::number::spec_warning_count;
use crate::parsers::diagnostics::ParserWarningKind;
use crate::parsers::input::{spec_byte_offset, spec_line};
use crate::parsers::statements::Statement;
use crate::parsers::input::{Cursor, ParserInput, ParserResult, ParserResultError, Span};

verus! {

/// Whether the error kind is one a module parse can surface: its own two,
/// or one of a statement inside it.
pub open spec fn spec_is_module_error(kind: ParserErrorKind) -> bool {
    ||| kind == ParserErrorKind::ModuleTwoStatementsInline
    ||| kind == ParserErrorKind::ModuleUnrecognizedEOF
    ||| spec_is_const_declaration_error(kind)
    ||| spec_is_expression_error(kind)
}

/// Whether the scan from the statement boundary `q` reaches the end of the
/// input: white space, then either the end of the input, or a constant
/// declaration (after a multiline separator, unless it is the first
/// statement), and so on after it.
pub open spec fn spec_module_ok_from(src: Seq<char>, q: int, first: bool) -> bool
    decreases src.len() - q,
    via spec_module_ok_from_decreases
{
    let w = spec_ws_end(src, q);
    if !(0 <= q <= src.len()) {
        false
    } else if !spec_const_keyword_at(src, w) {
        w == src.len()
    } else if !spec_const_declaration_ok(src, w) {
        false
    } else if !first && spec_line(src, q) == spec_line(src, w) {
        false
    } else {
        spec_module_ok_from(src, spec_const_declaration_end(src, w), false)
    }
}

#[via_fn]
proof fn spec_module_ok_from_decreases(src: Seq<char>, q: int, first: bool) {
    if 0 <= q <= src.len() && spec_const_keyword_at(src, spec_ws_end(src, q))
        && spec_const_declaration_ok(src, spec_ws_end(src, q)) {
        lemma_module_scan_step(src, q);
    }
}

/// One scan step moves strictly forward: the declaration at the end of the
/// white space ends past the boundary the scan started from.
proof fn lemma_module_scan_step(src: Seq<char>, q: int)
    requires
        0 <= q <= src.len(),
        spec_const_keyword_at(src, spec_ws_end(src, q)),
        spec_const_declaration_ok(src, spec_ws_end(src, q)),
    ensures
        q < spec_const_declaration_end(src, spec_ws_end(src, q)) <= src.len(),
{
    crate::parsers::commons::whitespaces::lemma_ws_end_bounds(src, q);
    lemma_const_declaration_positions(src, spec_ws_end(src, q));
}

/// Whether a whole module parses from `p`: the scan starts with no previous
/// statement.
pub open spec fn spec_module_ok(src: Seq<char>, p: int) -> bool {
    spec_module_ok_from(src, p, true)
}

/// Which hard error the scan from boundary `q` raises when it fails: the
/// residue at the end, a statement on the line of the previous one, or the
/// failing statement's own error.
pub open spec fn spec_module_error_from(src: Seq<char>, q: int, first: bool) -> ParserErrorKind
    decreases src.len() - q,
    via spec_module_error_from_decreases
{
    let w = spec_ws_end(src, q);
    if !(0 <= q <= src.len()) {
        ParserErrorKind::ModuleUnrecognizedEOF
    } else if !spec_const_keyword_at(src, w) {
        ParserErrorKind::ModuleUnrecognizedEOF
    } else if !spec_const_declaration_ok(src, w) {
        spec_const_declaration_error(src, w)
    } else if !first && spec_line(src, q) == spec_line(src, w) {
        ParserErrorKind::ModuleTwoStatementsInline
    } else {
        spec_module_error_from(src, spec_const_declaration_end(src, w), false)
    }
}

#[via_fn]
proof fn spec_module_error_from_decreases(src: Seq<char>, q: int, first: bool) {
    if 0 <= q <= src.len() && spec_const_keyword_at(src, spec_ws_end(src, q))
        && spec_const_declaration_ok(src, spec_ws_end(src, q)) {
        lemma_module_scan_step(src, q);
    }
}

/// Which hard error a whole module parse from `p` raises when it fails.
pub open spec fn spec_module_error(src: Seq<char>, p: int) -> ParserErrorKind {
    spec_module_error_from(src, p, true)
}

/// The char position the scan from boundary `q` stops at when it fails: the
/// start of the residue, or the start of the offending statement.
pub open spec fn spec_module_error_pos_from(src: Seq<char>, q: int, first: bool) -> int
    decreases src.len() - q,
    via spec_module_error_pos_from_decreases
{
    let w = spec_ws_end(src, q);
    if !(0 <= q <= src.len()) {
        w
    } else if !spec_const_keyword_at(src, w) {
        w
    } else if !spec_const_declaration_ok(src, w) {
        w
    } else if !first && spec_line(src, q) == spec_line(src, w) {
        w
    } else {
        spec_module_error_pos_from(src, spec_const_declaration_end(src, w), false)
    }
}

#[via_fn]
proof fn spec_module_error_pos_from_decreases(src: Seq<char>, q: int, first: bool) {
    if 0 <= q <= src.len() && spec_const_keyword_at(src, spec_ws_end(src, q))
        && spec_const_declaration_ok(src, spec_ws_end(src, q)) {
        lemma_module_scan_step(src, q);
    }
}

/// The char position a whole module parse from `p` stops at when it fails.
pub open spec fn spec_module_error_pos(src: Seq<char>, p: int) -> int {
    spec_module_error_pos_from(src, p, true)
}

/// How many warnings the scan from boundary `q` adds when the whole module
/// parses: one count per statement's literal, under the ignore flags.
pub open spec fn spec_module_warnings_from(
    src: Seq<char>,
    q: int,
    first: bool,
    lead: bool,
    trail: bool,
) -> int
    decreases src.len() - q,
    via spec_module_warnings_from_decreases
{
    let w = spec_ws_end(src, q);
    if !(0 <= q <= src.len()) {
        0
    } else if !spec_const_keyword_at(src, w) {
        0
    } else if !spec_const_declaration_ok(src, w) {
        0
    } else if !first && spec_line(src, q) == spec_line(src, w) {
        0
    } else {
        spec_warning_count(src, spec_decl_expr_start(src, w), lead, trail)
            + spec_module_warnings_from(src, spec_const_declaration_end(src, w), false, lead, trail)
    }
}

#[via_fn]
proof fn spec_module_warnings_from_decreases(
    src: Seq<char>,
    q: int,
    first: bool,
    lead: bool,
    trail: bool,
) {
    if 0 <= q <= src.len() && spec_const_keyword_at(src, spec_ws_end(src, q))
        && spec_const_declaration_ok(src, spec_ws_end(src, q)) {
        lemma_module_scan_step(src, q);
    }
}

/// How many warnings a whole module parse from `p` adds when it succeeds.
pub open spec fn spec_module_warnings(
    src: Seq<char>,
    p: int,
    lead: bool,
    trail: bool,
) -> int {
    spec_module_warnings_from(src, p, true, lead, trail)
}

/// Whether `statements` segments `src[p..len]`: before the first statement,
/// between consecutive statements and after the last one lies nothing but
/// white space and comments, and every statement is a constant declaration
/// spanning its own region.
pub open spec fn spec_module_segmentation(src: Seq<char>, p: int, statements: Seq<Statement>) -> bool {
    &&& (statements.len() == 0 ==> spec_ws_covers(src, p, src.len() as int))
    &&& (statements.len() > 0 ==> spec_ws_covers(
        src,
        p,
        statements[0].spec_span().start.char_offset as int,
    ) && spec_ws_covers(
        src,
        statements.last().spec_span().end.char_offset as int,
        src.len() as int,
    ))
    &&& (forall|i: int|
        1 <= i < statements.len() ==> spec_ws_covers(
            src,
            statements[i - 1].spec_span().end.char_offset as int,
            (#[trigger] statements[i]).spec_span().start.char_offset as int,
        ))
    &&& (forall|i: int|
        0 <= i < statements.len() ==> (#[trigger] statements[i]) is ConstDeclaration
            && spec_const_declaration_shape(
            src,
            statements[i].spec_span().start.char_offset as int,
            statements[i].spec_span().end.char_offset as int,
            &statements[i]->ConstDeclaration_0,
        ))
}

/// A Sand module, normally a file.
#[derive(Debug, Clone)]
pub struct Module {
    pub span: Span,
    pub statements: Vec<Statement>,
}

impl Module {
    /// The node invariant: every statement is itself well formed.
    pub open spec fn inv(&self) -> bool {
        forall|i: int| 0 <= i < self.statements@.len() ==> (#[trigger] self.statements@[i]).inv()
    }

    /// Every pair of consecutive statements starts on a line after the one
    /// the previous statement ended on: they are separated by a multiline
    /// whitespace.
    pub open spec fn statements_separated(&self) -> bool {
        forall|i: int|
            1 <= i < self.statements@.len() ==> (#[trigger] self.statements@[i]).spec_span().start.line
                != self.statements@[i - 1].spec_span().end.line
    }

    // GETTERS ----------------------------------------------------------------

    pub fn span(&self) -> (r: &Span)
        ensures
            r == self.span,
    {
        &self.span
    }

    pub fn span_content(&self) -> (r: &str)
        ensures
            r@ == self.span.content@,
    {
        self.span.content.as_str()
    }

    pub fn statements(&self) -> (r: &Vec<Statement>)
        ensures
            r == self.statements,
    {
        &self.statements
    }

    pub fn statements_mut(&mut self) -> (r: &mut Vec<Statement>)
        ensures
            *r == old(self).statements,
            *final(self) == (Module { statements: *final(r), ..*old(self) }),
    {
        &mut self.statements
    }

    // STATIC METHODS ---------------------------------------------------------

    /// Parses a whole module: statements separated by multiline whitespace,
    /// optional whitespace around them, and nothing else up to the end of
    /// the input. Two statements on one line, or residual content before the
    /// end, are hard errors; an empty input is a module with no statements.
    pub fn parse(input: &mut ParserInput) -> (r: ParserResult<Module>)
        requires
            old(input).wf(),
        ensures
            final(input).wf(),
            final(input).content == old(input).content,
            final(input).context.file_path == old(input).context.file_path,
            final(input).context.ignore == old(input).context.ignore,
            final(input).context.warnings@.len() >= old(input).context.warnings@.len(),
            forall|i: int|
                0 <= i < old(input).context.warnings@.len() ==> final(input).context.warnings@[i]
                    == old(input).context.warnings@[i],
            forall|i: int|
                old(input).context.warnings@.len() <= i < final(input).context.warnings@.len()
                    ==> (#[trigger] final(input).context.warnings@[i].kind)
                    == ParserWarningKind::NumberWithLeadingZeroes || final(input).context.warnings@[i].kind
                    == ParserWarningKind::NumberWithTrailingZeroes,
            r is Ok ==> final(input).context.warnings@.len() == old(input).context.warnings@.len()
                + spec_module_warnings(
                old(input).src(),
                old(input).pos(),
                old(input).context.ignore.number_leading_zeroes,
                old(input).context.ignore.number_trailing_zeroes,
            ),
            r is Ok <==> spec_module_ok(old(input).src(), old(input).pos()),
            r is Ok ==> {
                let node = r->Ok_0;
                &&& node.inv()
                &&& node.span.wf(old(input).src())
                &&& node.span.start == old(input).cursor
                &&& node.span.end == final(input).cursor
                &&& final(input).pos() == old(input).src().len()
                &&& node.statements_separated()
                &&& (forall|i: int|
                    0 <= i < node.statements@.len() ==> (#[trigger] node.statements@[i]).spec_span().wf(
                        old(input).src(),
                    ))
                &&& node.statements@.len() <= old(input).src().len()
                &&& (old(input).src().len() == 0 ==> node.statements@.len() == 0)
                &&& spec_module_segmentation(old(input).src(), old(input).pos(), node.statements@)
            },
            r is Err ==> r->Err_0 is Error,
            (r is Err && r->Err_0 is Error) ==> spec_is_module_error(r->Err_0->Error_1.kind),
            (r is Err && r->Err_0 is Error) ==> r->Err_0->Error_1.kind == spec_module_error(
                old(input).src(),
                old(input).pos(),
            ),
            (r is Err && r->Err_0 is Error && r->Err_0->Error_1.kind
                == ParserErrorKind::ModuleTwoStatementsInline) ==> {
                let e = r->Err_0->Error_1;
                let at = spec_byte_offset(
                    old(input).src(),
                    spec_module_error_pos(old(input).src(), old(input).pos()),
                );
                &&& e.log.highlights@.len() == 2
                &&& e.log.highlights@[0] is Point
                &&& e.log.highlights@[0]->Point_at == at
                &&& e.log.highlights@[1] is Section
                &&& e.log.highlights@[1]->Section_start == at
            },
            (r is Err && r->Err_0 is Error && r->Err_0->Error_1.kind
                == ParserErrorKind::ModuleUnrecognizedEOF) ==> {
                let e = r->Err_0->Error_1;
                let at = spec_byte_offset(
                    old(input).src(),
                    spec_module_error_pos(old(input).src(), old(input).pos()),
                );
                &&& e.log.highlights@.len() == 2
                &&& e.log.highlights@[0] is Point
                &&& e.log.highlights@[0]->Point_at == at
                &&& e.log.highlights@[1] is Section
                &&& e.log.highlights@[1]->Section_start == at
            },
    {
        let init_cursor = input.save_cursor();
        let mut statements: Vec<Statement> = Vec::new();

        loop
            invariant
                input.wf(),
                input.content == old(input).content,
                input.context.file_path == old(input).context.file_path,
                input.context.ignore == old(input).context.ignore,
                init_cursor == old(input).cursor,
                old(input).pos() <= input.pos(),
                statements@.len() <= input.pos(),
                forall|i: int| 0 <= i < statements@.len() ==> (#[trigger] statements@[i]).inv(),
                forall|i: int|
                    0 <= i < statements@.len() ==> (#[trigger] statements@[i]).spec_span().wf(
                        input.src(),
                    ),
                forall|i: int|
                    1 <= i < statements@.len() ==> (#[trigger] statements@[i]).spec_span().start.line
                        != statements@[i - 1].spec_span().end.line,
                statements@.len() > 0 ==> statements@.last().spec_span().end == input.cursor,
                statements@.len() == 0 ==> input.cursor == old(input).cursor,
                spec_module_ok_from(input.src(), old(input).pos(), true) == spec_module_ok_from(
                    input.src(),
                    input.pos(),
                    statements@.len() == 0,
                ),
                spec_module_error_from(input.src(), old(input).pos(), true)
                    == spec_module_error_from(input.src(), input.pos(), statements@.len() == 0),
                spec_module_error_pos_from(input.src(), old(input).pos(), true)
                    == spec_module_error_pos_from(input.src(), input.pos(), statements@.len() == 0),
                input.context.warnings@.len() >= old(input).context.warnings@.len(),
                forall|i: int|
                    0 <= i < old(input).context.warnings@.len() ==> input.context.warnings@[i]
                        == old(input).context.warnings@[i],
                forall|i: int|
                    old(input).context.warnings@.len() <= i < input.context.warnings@.len() ==> (
                    #[trigger] input.context.warnings@[i].kind)
                        == ParserWarningKind::NumberWithLeadingZeroes
                        || input.context.warnings@[i].kind
                        == ParserWarningKind::NumberWithTrailingZeroes,
                input.context.warnings@.len() - old(input).context.warnings@.len()
                    + spec_module_warnings_from(
                    input.src(),
                    input.pos(),
                    statements@.len() == 0,
                    old(input).context.ignore.number_leading_zeroes,
                    old(input).context.ignore.number_trailing_zeroes,
                ) == spec_module_warnings_from(
                    input.src(),
                    old(input).pos(),
                    true,
                    old(input).context.ignore.number_leading_zeroes,
                    old(input).context.ignore.number_trailing_zeroes,
                ),

                statements@.len() > 0 ==> spec_ws_covers(
                    input.src(),
                    old(input).pos(),
                    statements@[0].spec_span().start.char_offset as int,
                ),
                forall|i: int|
                    1 <= i < statements@.len() ==> spec_ws_covers(
                        input.src(),
                        statements@[i - 1].spec_span().end.char_offset as int,
                        (#[trigger] statements@[i]).spec_span().start.char_offset as int,
                    ),
                forall|i: int|
                    0 <= i < statements@.len() ==> (#[trigger] statements@[i]) is ConstDeclaration
                        && spec_const_declaration_shape(
                        input.src(),
                        statements@[i].spec_span().start.char_offset as int,
                        statements@[i].spec_span().end.char_offset as int,
                        &statements@[i]->ConstDeclaration_0,
                    ),
            ensures
                input.wf(),
                input.content == old(input).content,
                input.context.file_path == old(input).context.file_path,
                input.context.ignore == old(input).context.ignore,
                old(input).pos() <= input.pos(),
                statements@.len() <= input.pos(),
                forall|i: int| 0 <= i < statements@.len() ==> (#[trigger] statements@[i]).inv(),
                forall|i: int|
                    0 <= i < statements@.len() ==> (#[trigger] statements@[i]).spec_span().wf(
                        input.src(),
                    ),
                forall|i: int|
                    1 <= i < statements@.len() ==> (#[trigger] statements@[i]).spec_span().start.line
                        != statements@[i - 1].spec_span().end.line,
                statements@.len() > 0 ==> statements@.last().spec_span().end == input.cursor,
                statements@.len() == 0 ==> input.cursor == old(input).cursor,
                statements@.len() > 0 ==> spec_ws_covers(
                    input.src(),
                    old(input).pos(),
                    statements@[0].spec_span().start.char_offset as int,
                ),
                forall|i: int|
                    1 <= i < statements@.len() ==> spec_ws_covers(
                        input.src(),
                        statements@[i - 1].spec_span().end.char_offset as int,
                        (#[trigger] statements@[i]).spec_span().start.char_offset as int,
                    ),
                forall|i: int|
                    0 <= i < statements@.len() ==> (#[trigger] statements@[i]) is ConstDeclaration
                        && spec_const_declaration_shape(
                        input.src(),
                        statements@[i].spec_span().start.char_offset as int,
                        statements@[i].spec_span().end.char_offset as int,
                        &statements@[i]->ConstDeclaration_0,
                    ),
                spec_module_ok_from(input.src(), old(input).pos(), true) == spec_module_ok_from(
                    input.src(),
                    input.pos(),
                    statements@.len() == 0,
                ),
                spec_module_error_from(input.src(), old(input).pos(), true)
                    == spec_module_error_from(input.src(), input.pos(), statements@.len() == 0),
                spec_module_error_pos_from(input.src(), old(input).pos(), true)
                    == spec_module_error_pos_from(input.src(), input.pos(), statements@.len() == 0),
                input.context.warnings@.len() >= old(input).context.warnings@.len(),
                forall|i: int|
                    0 <= i < old(input).context.warnings@.len() ==> input.context.warnings@[i]
                        == old(input).context.warnings@[i],
                forall|i: int|
                    old(input).context.warnings@.len() <= i < input.context.warnings@.len() ==> (
                    #[trigger] input.context.warnings@[i].kind)
                        == ParserWarningKind::NumberWithLeadingZeroes
                        || input.context.warnings@[i].kind
                        == ParserWarningKind::NumberWithTrailingZeroes,
                input.context.warnings@.len() - old(input).context.warnings@.len()
                    + spec_module_warnings_from(
                    input.src(),
                    input.pos(),
                    statements@.len() == 0,
                    old(input).context.ignore.number_leading_zeroes,
                    old(input).context.ignore.number_trailing_zeroes,
                ) == spec_module_warnings_from(
                    input.src(),
                    old(input).pos(),
                    true,
                    old(input).context.ignore.number_leading_zeroes,
                    old(input).context.ignore.number_trailing_zeroes,
                ),
                !spec_const_keyword_at(
                    input.src(),
                    spec_ws_end(input.src(), input.pos()),
                ),
            decreases input.src().len() - input.pos(),
        {
            let iteration_cursor = input.save_cursor();
            let whitespace = match Whitespace::parse(input) {
                Ok(w) => Some(w),
                Err(_) => None,
            };
            let statement = match Statement::parse(input) {
                Ok(st) => st,
                Err(e) => {
                    match e {
                        ParserResultError::NotFound => {
                            input.restore(iteration_cursor);
                            break ;
                        },
                        ParserResultError::Error(c, err) => {
                            return Err(ParserResultError::Error(c, err));
                        },
                    }
                },
            };
            if statements.len() > 0 {
                let multiline = match &whitespace {
                    Some(w) => w.is_multiline(),
                    None => false,
                };
                if !multiline {
                    let error = Self::error_two_statements_inline(input, &statement);
                    return Err(ParserResultError::Error(input.save_cursor(), error));
                }
            }
            statements.push(statement);
        }

        let ghost tail_start = input.pos();
        match Whitespace::parse(input) {
            Ok(_) => {},
            Err(_) => {},
        }
        if !input.is_eof() {
            let error = Self::error_unrecognized_eof(input);
            return Err(ParserResultError::Error(input.save_cursor(), error));
        }
        proof {
            assert(spec_ws_covers(input.src(), tail_start, tail_start));
            assert(spec_ws_covers(input.src(), tail_start, input.pos()));
        }

        let span = input.substring_to_current(&init_cursor);
        Ok(Module { span, statements })
    }

    // DIAGNOSTICS ------------------------------------------------------------

    /// The error for a statement that stands on the same line as the one
    /// before it.
    pub fn error_two_statements_inline(input: &ParserInput, statement: &Statement) -> (r:
        ParserError)
        ensures
            r.kind == ParserErrorKind::ModuleTwoStatementsInline,
            r.log.highlights@.len() == 2,
            r.log.highlights@[0] is Point,
            r.log.highlights@[0]->Point_at == statement.spec_span().start.byte_offset,
            r.log.highlights@[1] is Section,
            r.log.highlights@[1]->Section_start == statement.spec_span().start.byte_offset,
            r.log.highlights@[1]->Section_end == statement.spec_span().end.byte_offset,
    {
        let span = statement.span();
        let mut highlights: Vec<Highlight> = Vec::new();
        highlights.push(
            Highlight::Point {
                at: span.start_cursor().byte_offset(),
                message: Some("Insert a line break here, e.g. '\\n'".to_owned()),
            },
        );
        highlights.push(
            Highlight::Section {
                start: span.start_cursor().byte_offset(),
                end: span.end_cursor().byte_offset(),
                message: None,
                marked: true,
            },
        );
        generate_error(
            ParserErrorKind::ModuleTwoStatementsInline,
            "Statements cannot be inline with others",
            highlights,
        )
    }

    /// The error for residual content after the last statement.
    pub fn error_unrecognized_eof(input: &ParserInput) -> (r: ParserError)
        ensures
            r.kind == ParserErrorKind::ModuleUnrecognizedEOF,
            r.log.highlights@.len() == 2,
            r.log.highlights@[0] is Point,
            r.log.highlights@[0]->Point_at == input.cursor.byte_offset,
            r.log.highlights@[1] is Section,
            r.log.highlights@[1]->Section_start == input.cursor.byte_offset,
    {
        let mut highlights: Vec<Highlight> = Vec::new();
        highlights.push(
            Highlight::Point {
                at: input.byte_offset(),
                message: Some("The file is expected to end here".to_owned()),
            },
        );
        highlights.push(
            Highlight::Section {
                start: input.byte_offset(),
                end: input.content().len(),
                message: Some("Unrecognized content (remove it)".to_owned()),
                marked: true,
            },
        );
        generate_error(
            ParserErrorKind::ModuleUnrecognizedEOF,
            "The module must finish here",
            highlights,
        )
    }
}

} // verus!
