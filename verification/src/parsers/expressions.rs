//! Expressions of the Sand language. The only alternative so far is a
//! literal; the variants are laid out for later growth.

pub mod literals;
pub mod paths;

use vstd::prelude::*;

use crate::parsers::expressions::literals::Literal;
use crate::parsers::input::{ParserInput, ParserResult, Span};

verus! {

/// An expression.
#[derive(Debug, Clone)]
pub enum Expression {
    Literal(Literal),
}

impl Expression {
    /// The node invariant of whichever variant the expression holds.
    pub open spec fn inv(&self) -> bool {
        match self {
            Expression::Literal(v) => v.inv(),
        }
    }

    // GETTERS ----------------------------------------------------------------

    pub fn is_literal(&self) -> (r: bool)
        ensures
            r == (self is Literal),
    {
        matches!(self, Expression::Literal(_))
    }

    pub fn span(&self) -> (r: &Span)
        ensures
            r == self.spec_span(),
    {
        match self {
            Expression::Literal(v) => v.span(),
        }
    }

    /// The span of whichever variant the expression holds.
    pub open spec fn spec_span(&self) -> &Span {
        match self {
            Expression::Literal(v) => v.spec_span(),
        }
    }

    pub fn span_content(&self) -> (r: &str)
        ensures
            r@ == self.spec_span().content@,
    {
        match self {
            Expression::Literal(v) => v.span_content(),
        }
    }

    // METHODS ----------------------------------------------------------------

    /// Returns the literal inside the expression.
    pub fn unwrap_literal(self) -> (r: Literal)
        ensures
            self == Expression::Literal(r),
    {
        match self {
            Expression::Literal(v) => v,
        }
    }

    // STATIC METHODS ---------------------------------------------------------

    /// Parses an expression: the first alternative that applies, so far only
    /// a literal.
    pub fn parse(input: &mut ParserInput) -> (r: ParserResult<Expression>)
        requires
            old(input).wf(),
        ensures
            final(input).wf(),
            final(input).content == old(input).content,
            final(input).context.file_path == old(input).context.file_path,
            final(input).context.ignore == old(input).context.ignore,
            r is Ok <==> crate::parsers::expressions::literals::number::spec_number_ok(
                old(input).src(),
                old(input).pos(),
            ),
            r is Ok ==> {
                let node = r->Ok_0;
                &&& node.inv()
                &&& node is Literal
                &&& node.spec_span().wf(old(input).src())
                &&& node.spec_span().start == old(input).cursor
                &&& node.spec_span().end == final(input).cursor
                &&& old(input).pos() < final(input).pos()
                &&& final(input).pos()
                    == crate::parsers::expressions::literals::number::spec_token_end(
                    old(input).src(),
                    old(input).pos(),
                )
                &&& node->Literal_0 is Number
                &&& ((node->Literal_0)->Number_0.value.digits@, (node->Literal_0)->Number_0.value.exponent as int)
                    == crate::parsers::rational::spec_canon(
                    crate::parsers::expressions::literals::number::spec_mantissa_seq(
                        old(input).src(),
                        old(input).pos(),
                    ),
                    crate::parsers::expressions::literals::number::spec_scale(
                        old(input).src(),
                        old(input).pos(),
                    ),
                )
                &&& (node->Literal_0)->Number_0.value.denotes(
                    crate::parsers::rational::digits_to_nat(
                        crate::parsers::expressions::literals::number::spec_mantissa_seq(
                            old(input).src(),
                            old(input).pos(),
                        ),
                    ),
                    crate::parsers::expressions::literals::number::spec_scale(
                        old(input).src(),
                        old(input).pos(),
                    ),
                )
            },
            r is Err ==> final(input).context.warnings == old(input).context.warnings,
            final(input).context.warnings@.len() >= old(input).context.warnings@.len(),
            forall|i: int|
                0 <= i < old(input).context.warnings@.len() ==> final(input).context.warnings@[i]
                    == old(input).context.warnings@[i],
            forall|i: int|
                old(input).context.warnings@.len() <= i < final(input).context.warnings@.len()
                    ==> (#[trigger] final(input).context.warnings@[i].kind)
                    == crate::parsers::diagnostics::ParserWarningKind::NumberWithLeadingZeroes
                    || final(input).context.warnings@[i].kind
                    == crate::parsers::diagnostics::ParserWarningKind::NumberWithTrailingZeroes,
            r is Ok ==> final(input).context.warnings@.len() == old(input).context.warnings@.len()
                + crate::parsers::expressions::literals::number::spec_warning_count(
                old(input).src(),
                old(input).pos(),
                old(input).context.ignore.number_leading_zeroes,
                old(input).context.ignore.number_trailing_zeroes,
            ),

            (r is Err && r->Err_0 is Error)
                ==> crate::parsers::expressions::literals::number::spec_is_number_error(
                r->Err_0->Error_1.kind,
            ),
            (r is Err && r->Err_0 is Error) ==> r->Err_0->Error_1.kind
                == crate::parsers::expressions::literals::number::spec_number_error(
                old(input).src(),
                old(input).pos(),
            ),
            (r is Err && r->Err_0 is Error) ==> {
                let e = r->Err_0->Error_1;
                let src = old(input).src();
                let p = old(input).pos();
                &&& (crate::parsers::expressions::literals::number::spec_frac_missing(src, p)
                    <==> e.kind == crate::parsers::diagnostics::ParserErrorKind::NumberWithoutDigitsAfterDecimalSeparator)
                &&& (!crate::parsers::expressions::literals::number::spec_frac_missing(src, p)
                    && crate::parsers::expressions::literals::number::spec_exp_missing(src, p)
                    ==> e.kind == crate::parsers::diagnostics::ParserErrorKind::NumberWithoutDigitsAfterExponentToken)
                &&& (!crate::parsers::expressions::literals::number::spec_frac_missing(src, p)
                    && !crate::parsers::expressions::literals::number::spec_exp_missing(src, p)
                    && crate::parsers::expressions::literals::number::spec_frac_too_big(src, p)
                    ==> e.kind == crate::parsers::diagnostics::ParserErrorKind::NumberTooBig)
                &&& (!crate::parsers::expressions::literals::number::spec_frac_missing(src, p)
                    && !crate::parsers::expressions::literals::number::spec_exp_missing(src, p)
                    && !crate::parsers::expressions::literals::number::spec_frac_too_big(src, p)
                    && crate::parsers::expressions::literals::number::spec_exp_too_big(src, p)
                    ==> e.kind == crate::parsers::diagnostics::ParserErrorKind::NumberTooBigExponent)
            },

            (r is Err && r->Err_0 is NotFound) ==> *final(input) == *old(input),
            (r is Err && r->Err_0 is NotFound)
                <==> !crate::parsers::expressions::literals::number::spec_number_starts(
                old(input).src(),
                old(input).pos(),
            ),
    {
        match Literal::parse(input) {
            Ok(v) => Ok(Expression::Literal(v)),
            Err(e) => Err(e),
        }
    }
}

} // verus!
