//! Program statements. The only alternative so far is a constant
//! declaration; the variants are laid out for later growth.

pub mod const_declaration;

use vstd::prelude::*;

use crate::parsers::statements::const_declaration::{
    spec_const_declaration_end, spec_const_declaration_error, spec_const_declaration_ok,
    spec_const_declaration_shape, spec_const_keyword_at, spec_decl_expr_start,
    spec_is_const_declaration_error, spec_is_expression_error, ConstDeclaration,
};
use crate::parsers::input::{ParserInput, ParserResult, Span};

verus! {

/// A program statement.
#[derive(Debug, Clone)]
pub enum Statement {
    ConstDeclaration(ConstDeclaration),
}

impl Statement {
    /// The node invariant of whichever variant the statement holds.
    pub open spec fn inv(&self) -> bool {
        match self {
            Statement::ConstDeclaration(v) => v.inv(),
        }
    }

    /// The span of whichever variant the statement holds.
    pub open spec fn spec_span(&self) -> &Span {
        match self {
            Statement::ConstDeclaration(v) => &v.span,
        }
    }

    // GETTERS ----------------------------------------------------------------

    pub fn is_const_declaration(&self) -> (r: bool)
        ensures
            r == (self is ConstDeclaration),
    {
        matches!(self, Statement::ConstDeclaration(_))
    }

    pub fn span(&self) -> (r: &Span)
        ensures
            r == self.spec_span(),
    {
        match self {
            Statement::ConstDeclaration(v) => v.span(),
        }
    }

    pub fn span_content(&self) -> (r: &str)
        ensures
            r@ == self.spec_span().content@,
    {
        match self {
            Statement::ConstDeclaration(v) => v.span_content(),
        }
    }

    // METHODS ----------------------------------------------------------------

    /// Returns the constant declaration inside the statement.
    pub fn unwrap_const_declaration(self) -> (r: ConstDeclaration)
        ensures
            self == Statement::ConstDeclaration(r),
    {
        match self {
            Statement::ConstDeclaration(v) => v,
        }
    }

    // STATIC METHODS ---------------------------------------------------------

    /// Parses a statement: the first alternative that applies, so far only a
    /// constant declaration.
    pub fn parse(input: &mut ParserInput) -> (r: ParserResult<Statement>)
        requires
            old(input).wf(),
        ensures
            final(input).wf(),
            final(input).content == old(input).content,
            final(input).context.file_path == old(input).context.file_path,
            final(input).context.ignore == old(input).context.ignore,
            r is Err ==> final(input).context.warnings == old(input).context.warnings,
            final(input).context.warnings@.len() >= old(input).context.warnings@.len(),
            forall|i: int|
                0 <= i < old(input).context.warnings@.len() ==> final(input).context.warnings@[i]
                    == old(input).context.warnings@[i],
            forall|i: int|
                old(input).context.warnings@.len() <= i < final(input).context.warnings@.len()
                    ==> (#[trigger] final(input).context.warnings@[i].kind)
                    == crate::parsers::diagnostics::ParserWarningKind::NumberWithLeadingZeroes
                    || final(input).context.warnings@[i].kind
                    == crate::parsers::diagnostics::ParserWarningKind::NumberWithTrailingZeroes,
            r is Ok ==> final(input).context.warnings@.len() == old(input).context.warnings@.len()
                + crate::parsers::expressions::literals::number::spec_warning_count(
                old(input).src(),
                spec_decl_expr_start(old(input).src(), old(input).pos()),
                old(input).context.ignore.number_leading_zeroes,
                old(input).context.ignore.number_trailing_zeroes,
            ),
            r is Ok <==> spec_const_declaration_ok(old(input).src(), old(input).pos()),
            r is Ok ==> final(input).pos() == spec_const_declaration_end(
                old(input).src(),
                old(input).pos(),
            ),
            r is Ok ==> {
                let node = r->Ok_0;
                &&& node.inv()
                &&& node is ConstDeclaration
                &&& node.spec_span().wf(old(input).src())
                &&& node.spec_span().start == old(input).cursor
                &&& node.spec_span().end == final(input).cursor
                &&& old(input).pos() < final(input).pos()
                &&& spec_const_declaration_shape(
                    old(input).src(),
                    old(input).pos(),
                    final(input).pos(),
                    &node->ConstDeclaration_0,
                )
            },
            (r is Err && r->Err_0 is NotFound) <==> !spec_const_keyword_at(
                old(input).src(),
                old(input).pos(),
            ),
            (r is Err && r->Err_0 is NotFound) ==> *final(input) == *old(input),
            (r is Err && r->Err_0 is Error) ==> {
                let e = r->Err_0->Error_1;
                &&& spec_is_const_declaration_error(e.kind) || spec_is_expression_error(e.kind)
                &&& e.kind == spec_const_declaration_error(old(input).src(), old(input).pos())
            },
    {
        match ConstDeclaration::parse(input) {
            Ok(v) => Ok(Statement::ConstDeclaration(v)),
            Err(e) => Err(e),
        }
    }
}

} // verus!
