//! Constant declarations: `const <identifier> = <expression>`.

use vstd::prelude::*;

use crate::parsers::diagnostics::{generate_error, Highlight, ParserError, ParserErrorKind};
use crate::parsers::commons::identifier::{spec_identifier_end, Identifier};
use crate::parsers::commons::whitespaces::{spec_ws_covers, spec_ws_end, Whitespace};
use crate::parsers::expressions::literals::number::{
    spec_mantissa_seq, spec_number_error, spec_number_ok, spec_number_starts, spec_scale,
    spec_token_end, spec_warning_count,
};
use crate::parsers::rational::{digits_to_nat, spec_canon};
use crate::parsers::expressions::Expression;
use crate::parsers::chars::spec_is_identifier_head;
use crate::parsers::input::{Cursor, ParserInput, ParserResult, ParserResultError, Span};

verus! {

/// Whether the error kind is one a constant declaration itself raises.
pub open spec fn spec_is_const_declaration_error(kind: ParserErrorKind) -> bool {
    ||| kind == ParserErrorKind::ConstDeclarationWithoutIdentifier
    ||| kind == ParserErrorKind::ConstDeclarationWithoutAssignExpression
    ||| kind == ParserErrorKind::ConstDeclarationWithoutExpression
}

/// Whether the error kind is one the expression of a declaration raises.
pub open spec fn spec_is_expression_error(kind: ParserErrorKind) -> bool {
    crate::parsers::expressions::literals::number::spec_is_number_error(kind)
}

/// Whether the declaration keyword stands as a whole word at `p` of `src`.
pub open spec fn spec_const_keyword_at(src: Seq<char>, p: int) -> bool {
    &&& p < src.len()
    &&& spec_is_identifier_head(src[p])
    &&& src.subrange(p, spec_identifier_end(src, p)) == "const"@
}

// The positions of the declaration's parts, for a declaration whose keyword
// stands at `p`. Each is where the scan deterministically lands: past the
// keyword and the white space comes the identifier, past it and more white
// space the assign operator, past that and more white space the expression.
/// Where the declaration's identifier starts.
pub open spec fn spec_decl_ident_start(src: Seq<char>, p: int) -> int {
    spec_ws_end(src, spec_identifier_end(src, p))
}

/// Whether an identifier follows the keyword.
pub open spec fn spec_decl_has_identifier(src: Seq<char>, p: int) -> bool {
    spec_decl_ident_start(src, p) < src.len() && spec_is_identifier_head(
        src[spec_decl_ident_start(src, p)],
    )
}

/// Where the declaration's identifier ends.
pub open spec fn spec_decl_ident_end(src: Seq<char>, p: int) -> int {
    spec_identifier_end(src, spec_decl_ident_start(src, p))
}

/// Where the assign operator would stand.
pub open spec fn spec_decl_assign_pos(src: Seq<char>, p: int) -> int {
    spec_ws_end(src, spec_decl_ident_end(src, p))
}

/// Whether the assign operator follows the identifier.
pub open spec fn spec_decl_has_assign(src: Seq<char>, p: int) -> bool {
    spec_decl_assign_pos(src, p) < src.len() && src[spec_decl_assign_pos(src, p)] == '='
}

/// Where the declaration's expression starts.
pub open spec fn spec_decl_expr_start(src: Seq<char>, p: int) -> int {
    spec_ws_end(src, spec_decl_assign_pos(src, p) + 1)
}

/// Whether a whole constant declaration parses at `p`: the whole-word
/// keyword, an identifier, the assign operator and a well-formed number.
pub open spec fn spec_const_declaration_ok(src: Seq<char>, p: int) -> bool {
    &&& spec_const_keyword_at(src, p)
    &&& spec_decl_has_identifier(src, p)
    &&& spec_decl_has_assign(src, p)
    &&& spec_number_ok(src, spec_decl_expr_start(src, p))
}

/// Where the declaration ends: right after its expression.
pub open spec fn spec_const_declaration_end(src: Seq<char>, p: int) -> int {
    spec_token_end(src, spec_decl_expr_start(src, p))
}

/// Which hard error a declaration parse raises when its keyword stands at
/// `p` but the parse fails: the first missing part, in scan order, or the
/// expression's own error.
pub open spec fn spec_const_declaration_error(src: Seq<char>, p: int) -> ParserErrorKind {
    if !spec_decl_has_identifier(src, p) {
        ParserErrorKind::ConstDeclarationWithoutIdentifier
    } else if !spec_decl_has_assign(src, p) {
        ParserErrorKind::ConstDeclarationWithoutAssignExpression
    } else if !spec_number_starts(src, spec_decl_expr_start(src, p)) {
        ParserErrorKind::ConstDeclarationWithoutExpression
    } else {
        spec_number_error(src, spec_decl_expr_start(src, p))
    }
}

/// Whether `src[p..q]` is a constant declaration whose parts are those of
/// `node`: the whole-word keyword, then (between runs of white space and
/// comments) the node's identifier, the assign operator and the node's
/// numeric expression.
pub open spec fn spec_const_declaration_shape(
    src: Seq<char>,
    p: int,
    q: int,
    node: &ConstDeclaration,
) -> bool {
    let keyword_end = spec_identifier_end(src, p);
    let a = node.identifier.span.start.char_offset as int;
    let b = node.identifier.span.end.char_offset as int;
    let d = node.expression.spec_span().start.char_offset as int;
    &&& spec_const_keyword_at(src, p)
    &&& spec_ws_covers(src, keyword_end, a)
    &&& a < src.len() && spec_is_identifier_head(src[a])
    &&& b == spec_identifier_end(src, a)
    &&& node.identifier.span.wf(src)
    &&& (exists|c: int|
        b <= c < src.len() && #[trigger] spec_ws_covers(src, b, c) && src[c] == '='
            && spec_ws_covers(src, c + 1, d))
    &&& spec_number_starts(src, d)
    &&& q == spec_token_end(src, d)
    &&& node.expression is Literal
    &&& node.expression->Literal_0 is Number
    &&& ({
        let number = (node.expression->Literal_0)->Number_0;
        &&& number.span.wf(src)
        &&& number.span.end.char_offset == q
        &&& (number.value.digits@, number.value.exponent as int) == spec_canon(
            spec_mantissa_seq(src, d),
            spec_scale(src, d),
        )
        &&& number.value.denotes(digits_to_nat(spec_mantissa_seq(src, d)), spec_scale(src, d))
    })
}

/// The declaration's parts sit in scan order inside the source, and a
/// declaration that parses ends strictly past where it starts.
pub proof fn lemma_const_declaration_positions(src: Seq<char>, p: int)
    requires
        0 <= p <= src.len(),
        spec_const_keyword_at(src, p),
    ensures
        p < spec_identifier_end(src, p) <= spec_decl_ident_start(src, p) <= src.len(),
        spec_decl_ident_start(src, p) <= spec_decl_ident_end(src, p) <= spec_decl_assign_pos(
            src,
            p,
        ) <= src.len(),
        spec_decl_has_assign(src, p) ==> spec_decl_assign_pos(src, p) + 1 <= spec_decl_expr_start(
            src,
            p,
        ) <= src.len(),
        spec_const_declaration_ok(src, p) ==> p < spec_const_declaration_end(src, p) <= src.len(),
{
    crate::parsers::commons::identifier::lemma_body_run_end_bounds(src, p + 1);
    let ke = spec_identifier_end(src, p);
    crate::parsers::commons::whitespaces::lemma_ws_end_bounds(src, ke);
    let a = spec_decl_ident_start(src, p);
    if spec_decl_has_identifier(src, p) {
        crate::parsers::commons::identifier::lemma_body_run_end_bounds(src, a + 1);
    }
    let b = spec_decl_ident_end(src, p);
    crate::parsers::commons::whitespaces::lemma_ws_end_bounds(src, b);
    let c = spec_decl_assign_pos(src, p);
    if spec_decl_has_assign(src, p) {
        crate::parsers::commons::whitespaces::lemma_ws_end_bounds(src, c + 1);
        let d = spec_decl_expr_start(src, p);
        if spec_number_starts(src, d) {
            crate::parsers::expressions::literals::number::lemma_token_bounds(src, d);
        }
    }
}

/// A constant declaration.
#[derive(Debug, Clone)]
pub struct ConstDeclaration {
    pub span: Span,
    pub identifier: Identifier,
    pub expression: Expression,
}

impl ConstDeclaration {
    /// The node invariant: both parts are themselves well formed.
    pub open spec fn inv(&self) -> bool {
        &&& self.identifier.inv()
        &&& self.expression.inv()
    }

    // GETTERS ----------------------------------------------------------------

    pub fn span(&self) -> (r: &Span)
        ensures
            r == self.span,
    {
        &self.span
    }

    pub fn span_content(&self) -> (r: &str)
        ensures
            r@ == self.span.content@,
    {
        self.span.content.as_str()
    }

    pub fn identifier(&self) -> (r: &Identifier)
        ensures
            r == self.identifier,
    {
        &self.identifier
    }

    pub fn identifier_mut(&mut self) -> (r: &mut Identifier)
        ensures
            *r == old(self).identifier,
            *final(self) == (ConstDeclaration { identifier: *final(r), ..*old(self) }),
    {
        &mut self.identifier
    }

    pub fn expression(&self) -> (r: &Expression)
        ensures
            r == self.expression,
    {
        &self.expression
    }

    pub fn expression_mut(&mut self) -> (r: &mut Expression)
        ensures
            *r == old(self).expression,
            *final(self) == (ConstDeclaration { expression: *final(r), ..*old(self) }),
    {
        &mut self.expression
    }

    // STATIC METHODS ---------------------------------------------------------

    /// Parses a constant declaration: the whole-word keyword `const`, an
    /// identifier, the assign operator and an expression, with optional
    /// whitespace between the tokens. A missing identifier, operator or
    /// expression is a hard error.
    pub fn parse(input: &mut ParserInput) -> (r: ParserResult<ConstDeclaration>)
        requires
            old(input).wf(),
        ensures
            final(input).wf(),
            final(input).content == old(input).content,
            final(input).context.file_path == old(input).context.file_path,
            final(input).context.ignore == old(input).context.ignore,
            r is Err ==> final(input).context.warnings == old(input).context.warnings,
            final(input).context.warnings@.len() >= old(input).context.warnings@.len(),
            forall|i: int|
                0 <= i < old(input).context.warnings@.len() ==> final(input).context.warnings@[i]
                    == old(input).context.warnings@[i],
            forall|i: int|
                old(input).context.warnings@.len() <= i < final(input).context.warnings@.len()
                    ==> (#[trigger] final(input).context.warnings@[i].kind)
                    == crate::parsers::diagnostics::ParserWarningKind::NumberWithLeadingZeroes
                    || final(input).context.warnings@[i].kind
                    == crate::parsers::diagnostics::ParserWarningKind::NumberWithTrailingZeroes,
            r is Ok ==> final(input).context.warnings@.len() == old(input).context.warnings@.len()
                + spec_warning_count(
                old(input).src(),
                spec_decl_expr_start(old(input).src(), old(input).pos()),
                old(input).context.ignore.number_leading_zeroes,
                old(input).context.ignore.number_trailing_zeroes,
            ),
            r is Ok <==> spec_const_declaration_ok(old(input).src(), old(input).pos()),
            r is Ok ==> {
                let node = r->Ok_0;
                &&& node.inv()
                &&& node.span.wf(old(input).src())
                &&& node.span.start == old(input).cursor
                &&& node.span.end == final(input).cursor
                &&& old(input).pos() < final(input).pos()
                &&& final(input).pos() == spec_const_declaration_end(
                    old(input).src(),
                    old(input).pos(),
                )
                &&& spec_const_keyword_at(old(input).src(), old(input).pos())
                &&& spec_const_declaration_shape(
                    old(input).src(),
                    old(input).pos(),
                    final(input).pos(),
                    &node,
                )
            },
            (r is Err && r->Err_0 is NotFound) <==> !spec_const_keyword_at(
                old(input).src(),
                old(input).pos(),
            ),
            (r is Err && r->Err_0 is NotFound) ==> *final(input) == *old(input),
            (r is Err && r->Err_0 is Error) ==> {
                let e = r->Err_0->Error_1;
                &&& spec_is_const_declaration_error(e.kind) || spec_is_expression_error(e.kind)
                &&& e.kind == spec_const_declaration_error(old(input).src(), old(input).pos())
            },
    {
        let init_cursor = input.save_cursor();
        match Identifier::read_keyword(input, "const") {
            Ok(_) => {},
            Err(e) => {
                return Err(e);
            },
        }
        match Whitespace::parse(input) {
            Ok(_) => {},
            Err(_) => {},
        }

        let identifier = match Identifier::parse(input) {
            Ok(v) => v,
            Err(_) => {
                let error = Self::error_without_identifier(input, &init_cursor);
                return Err(ParserResultError::Error(input.save_cursor(), error));
            },
        };
        let post_identifier_cursor = input.save_cursor();

        match Whitespace::parse(input) {
            Ok(_) => {},
            Err(_) => {},
        }
        let ghost assign_pos = input.pos();
        let assign_here = match input.peek() {
            Some(c) => c == '=',
            None => false,
        };
        if !assign_here {
            let error = Self::error_without_assign_expression(
                input,
                &init_cursor,
                &post_identifier_cursor,
            );
            return Err(ParserResultError::Error(input.save_cursor(), error));
        }
        input.advance();
        match Whitespace::parse(input) {
            Ok(_) => {},
            Err(_) => {},
        }
        let post_assign_operator_cursor = input.save_cursor();

        let expression = match Expression::parse(input) {
            Ok(v) => v,
            Err(e) => {
                match e {
                    ParserResultError::NotFound => {
                        let error = Self::error_without_expression(
                            input,
                            &init_cursor,
                            &post_assign_operator_cursor,
                        );
                        return Err(ParserResultError::Error(input.save_cursor(), error));
                    },
                    ParserResultError::Error(c, err) => {
                        return Err(ParserResultError::Error(c, err));
                    },
                }
            },
        };

        let span = input.substring_to_current(&init_cursor);
        let node = ConstDeclaration { span, identifier, expression };
        proof {
            let src = old(input).src();
            let b = node.identifier.span.end.char_offset as int;
            let d = node.expression.spec_span().start.char_offset as int;
            assert(spec_ws_covers(src, b, b));
            assert(spec_ws_covers(src, assign_pos + 1, assign_pos + 1));
            assert(spec_ws_covers(src, b, assign_pos) && src[assign_pos] == '='
                && spec_ws_covers(src, assign_pos + 1, d));
        }
        Ok(node)
    }

    // DIAGNOSTICS ------------------------------------------------------------

    /// The error for a declaration whose keyword is not followed by an
    /// identifier.
    pub fn error_without_identifier(input: &ParserInput, init_cursor: &Cursor) -> (r: ParserError)
        ensures
            r.kind == ParserErrorKind::ConstDeclarationWithoutIdentifier,
            r.log.highlights@.len() == 2,
            r.log.highlights@[0] is Section,
            r.log.highlights@[0]->Section_start == init_cursor.byte_offset,
            r.log.highlights@[0]->Section_end == (if init_cursor.byte_offset <= usize::MAX - 5 {
                (init_cursor.byte_offset + 5) as usize
            } else {
                usize::MAX
            }),
            r.log.highlights@[1] is Point,
            r.log.highlights@[1]->Point_at == input.cursor.byte_offset,
    {
        let keyword_end = if init_cursor.byte_offset() <= usize::MAX - 5 {
            init_cursor.byte_offset() + 5
        } else {
            usize::MAX
        };
        let mut highlights: Vec<Highlight> = Vec::new();
        highlights.push(
            Highlight::Section {
                start: init_cursor.byte_offset(),
                end: keyword_end,
                message: None,
                marked: true,
            },
        );
        highlights.push(
            Highlight::Point {
                at: input.byte_offset(),
                message: Some("Add an identifier here".to_owned()),
            },
        );
        generate_error(
            ParserErrorKind::ConstDeclarationWithoutIdentifier,
            "Missing identifier after the constant declaration keyword 'const'",
            highlights,
        )
    }

    /// The error for a declaration whose identifier is not followed by an
    /// assignment.
    pub fn error_without_assign_expression(
        input: &ParserInput,
        init_cursor: &Cursor,
        post_identifier_cursor: &Cursor,
    ) -> (r: ParserError)
        ensures
            r.kind == ParserErrorKind::ConstDeclarationWithoutAssignExpression,
            r.log.highlights@.len() == 2,
            r.log.highlights@[0] is Section,
            r.log.highlights@[0]->Section_start == init_cursor.byte_offset,
            r.log.highlights@[0]->Section_end == post_identifier_cursor.byte_offset,
            r.log.highlights@[1] is Point,
            r.log.highlights@[1]->Point_at == input.cursor.byte_offset,
    {
        let mut highlights: Vec<Highlight> = Vec::new();
        highlights.push(
            Highlight::Section {
                start: init_cursor.byte_offset(),
                end: post_identifier_cursor.byte_offset(),
                message: None,
                marked: true,
            },
        );
        highlights.push(
            Highlight::Point {
                at: input.byte_offset(),
                message: Some("Add an expression here: = <expr>".to_owned()),
            },
        );
        generate_error(
            ParserErrorKind::ConstDeclarationWithoutAssignExpression,
            "Constant declarations require a value after their identifiers",
            highlights,
        )
    }

    /// The error for an assign operator with no expression after it.
    pub fn error_without_expression(
        input: &ParserInput,
        init_cursor: &Cursor,
        post_assign_operator_cursor: &Cursor,
    ) -> (r: ParserError)
        ensures
            r.kind == ParserErrorKind::ConstDeclarationWithoutExpression,
            r.log.highlights@.len() == 2,
            r.log.highlights@[0] is Section,
            r.log.highlights@[0]->Section_start == init_cursor.byte_offset,
            r.log.highlights@[0]->Section_end == post_assign_operator_cursor.byte_offset,
            r.log.highlights@[1] is Point,
            r.log.highlights@[1]->Point_at == post_assign_operator_cursor.byte_offset,
    {
        let mut highlights: Vec<Highlight> = Vec::new();
        highlights.push(
            Highlight::Section {
                start: init_cursor.byte_offset(),
                end: post_assign_operator_cursor.byte_offset(),
                message: None,
                marked: true,
            },
        );
        highlights.push(
            Highlight::Point {
                at: post_assign_operator_cursor.byte_offset(),
                message: Some("Add an expression here".to_owned()),
            },
        );
        generate_error(
            ParserErrorKind::ConstDeclarationWithoutExpression,
            "Constant declarations require an expression after the assign operator '='",
            highlights,
        )
    }
}

} // verus!
