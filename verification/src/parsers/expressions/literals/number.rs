//! Decimal number literals: integer digits, an optional fractional part and
//! an optional exponent, with their exact rational value and the warnings
//! about redundant zeros.

use vstd::prelude::*;

use crate::parsers::diagnostics::{
    generate_error, generate_warning, Highlight, ParserError, ParserErrorKind, ParserWarningKind,
};
use crate::parsers::chars::{is_digit_char, spec_is_digit};
use crate::parsers::input::{Cursor, ParserInput, ParserResult, ParserResultError, Span};
use crate::parsers::rational::{
    all_digits, digits_to_nat, lemma_digits_lower, lemma_pow10_increases, lemma_pow10_values,
    pow10, spec_canon, trim_trailing_zeros_digits, Rational,
};

verus! {

/// The first position at or after `i` whose character is not a decimal
/// digit (the length of the source if none).
pub open spec fn spec_digits_end(src: Seq<char>, i: int) -> int
    decreases src.len() - i,
{
    if i < 0 || i >= src.len() || !spec_is_digit(src[i]) {
        i
    } else {
        spec_digits_end(src, i + 1)
    }
}

/// The whole literal lies within the source and takes at least one
/// character.
pub proof fn lemma_token_bounds(src: Seq<char>, p: int)
    requires
        0 <= p <= src.len(),
        spec_number_starts(src, p),
    ensures
        p < spec_token_end(src, p) <= src.len(),
        p < spec_int_end(src, p),
{
    lemma_digits_end(src, p);
    if spec_has_dot(src, p) {
        lemma_digits_end(src, spec_frac_start(src, p));
    }
    if spec_has_exp(src, p) {
        lemma_digits_end(src, spec_exp_start(src, p));
    }
}

/// The digit run never moves backward and stays within the source; every
/// character inside it is a digit and the one at its end (if any) is not.
pub proof fn lemma_digits_end(src: Seq<char>, i: int)
    requires
        0 <= i <= src.len(),
    ensures
        i <= spec_digits_end(src, i) <= src.len(),
        forall|k: int| i <= k < spec_digits_end(src, i) ==> spec_is_digit(#[trigger] src[k]),
        spec_digits_end(src, i) == src.len() || !spec_is_digit(src[spec_digits_end(src, i)]),
    decreases src.len() - i,
{
    if i < src.len() && spec_is_digit(src[i]) {
        lemma_digits_end(src, i + 1);
    }
}

/// The digit values of `src[a..b]`.
pub open spec fn spec_digit_seq(src: Seq<char>, a: int, b: int) -> Seq<u8> {
    Seq::new((b - a) as nat, |k: int| (src[a + k] as u32 - 0x30) as u8)
}

// The shape of the literal that starts at position `p` of `src`.
/// Whether a number literal starts at `p`: there is a decimal digit.
pub open spec fn spec_number_starts(src: Seq<char>, p: int) -> bool {
    p < src.len() && spec_is_digit(src[p])
}

/// Where the integer digits end.
pub open spec fn spec_int_end(src: Seq<char>, p: int) -> int {
    spec_digits_end(src, p)
}

/// Whether a decimal separator follows the integer digits.
pub open spec fn spec_has_dot(src: Seq<char>, p: int) -> bool {
    spec_int_end(src, p) < src.len() && src[spec_int_end(src, p)] == '.'
}

/// Where the fractional digits start (only meaningful with a separator).
pub open spec fn spec_frac_start(src: Seq<char>, p: int) -> int {
    spec_int_end(src, p) + 1
}

/// Where the fractional digits end.
pub open spec fn spec_frac_end(src: Seq<char>, p: int) -> int {
    spec_digits_end(src, spec_frac_start(src, p))
}

/// Whether the separator is there but no digit follows it: a hard error.
pub open spec fn spec_frac_missing(src: Seq<char>, p: int) -> bool {
    spec_has_dot(src, p) && spec_frac_end(src, p) == spec_frac_start(src, p)
}

/// Where the literal stands after its fractional part.
pub open spec fn spec_after_frac(src: Seq<char>, p: int) -> int {
    if spec_has_dot(src, p) {
        spec_frac_end(src, p)
    } else {
        spec_int_end(src, p)
    }
}

/// Whether an exponent token follows.
pub open spec fn spec_has_exp(src: Seq<char>, p: int) -> bool {
    spec_after_frac(src, p) < src.len() && (src[spec_after_frac(src, p)] == 'e' || src[
        spec_after_frac(src, p)
    ] == 'E')
}

/// Whether the exponent carries a sign.
pub open spec fn spec_has_sign(src: Seq<char>, p: int) -> bool {
    spec_has_exp(src, p) && spec_after_frac(src, p) + 1 < src.len() && (src[spec_after_frac(src, p)
        + 1] == '+' || src[spec_after_frac(src, p) + 1] == '-')
}

/// Whether the exponent is negative.
pub open spec fn spec_exp_negative(src: Seq<char>, p: int) -> bool {
    spec_has_sign(src, p) && src[spec_after_frac(src, p) + 1] == '-'
}

/// Where the exponent digits start (only meaningful with an exponent).
pub open spec fn spec_exp_start(src: Seq<char>, p: int) -> int {
    spec_after_frac(src, p) + 1 + if spec_has_sign(src, p) {
        1int
    } else {
        0int
    }
}

/// Where the exponent digits end.
pub open spec fn spec_exp_end(src: Seq<char>, p: int) -> int {
    spec_digits_end(src, spec_exp_start(src, p))
}

/// Whether the exponent token is there but no digit follows it: a hard
/// error.
pub open spec fn spec_exp_missing(src: Seq<char>, p: int) -> bool {
    spec_has_exp(src, p) && spec_exp_end(src, p) == spec_exp_start(src, p)
}

/// Where the whole literal ends.
pub open spec fn spec_token_end(src: Seq<char>, p: int) -> int {
    if spec_has_exp(src, p) {
        spec_exp_end(src, p)
    } else {
        spec_after_frac(src, p)
    }
}

/// The integer digits of the literal.
pub open spec fn spec_int_seq(src: Seq<char>, p: int) -> Seq<u8> {
    spec_digit_seq(src, p, spec_int_end(src, p))
}

/// The fractional digits of the literal (empty without a separator).
pub open spec fn spec_frac_seq(src: Seq<char>, p: int) -> Seq<u8> {
    if spec_has_dot(src, p) {
        spec_digit_seq(src, spec_frac_start(src, p), spec_frac_end(src, p))
    } else {
        Seq::empty()
    }
}

/// The exponent digits of the literal (empty without an exponent).
pub open spec fn spec_exp_seq(src: Seq<char>, p: int) -> Seq<u8> {
    if spec_has_exp(src, p) {
        spec_digit_seq(src, spec_exp_start(src, p), spec_exp_end(src, p))
    } else {
        Seq::empty()
    }
}

/// The signed value of the exponent.
pub open spec fn spec_exp_value(src: Seq<char>, p: int) -> int {
    if spec_exp_negative(src, p) {
        -(digits_to_nat(spec_exp_seq(src, p)) as int)
    } else {
        digits_to_nat(spec_exp_seq(src, p)) as int
    }
}

/// Whether the fractional part, its trailing zeros trimmed, exceeds what a
/// u32 can hold: a hard error.
pub open spec fn spec_frac_too_big(src: Seq<char>, p: int) -> bool {
    digits_to_nat(trim_trailing_zeros_digits(spec_frac_seq(src, p))) > u32::MAX
}

/// Whether the exponent lies outside the signed 32-bit range: a hard error.
pub open spec fn spec_exp_too_big(src: Seq<char>, p: int) -> bool {
    !(-0x8000_0000 <= spec_exp_value(src, p) <= 0x7FFF_FFFF)
}

/// The mantissa of the literal: integer digits then fractional digits. By
/// [`crate::parsers::rational::lemma_digits_concat`] its value is the
/// integer part times ten to the number of fractional digits, plus the
/// fractional part.
pub open spec fn spec_mantissa_seq(src: Seq<char>, p: int) -> Seq<u8> {
    spec_int_seq(src, p) + spec_frac_seq(src, p)
}

/// The power of ten the mantissa is scaled by: the exponent, less one for
/// every fractional digit.
pub open spec fn spec_scale(src: Seq<char>, p: int) -> int {
    spec_exp_value(src, p) - spec_frac_seq(src, p).len()
}

/// Whether the error kind is one a number literal raises.
pub open spec fn spec_is_number_error(kind: ParserErrorKind) -> bool {
    ||| kind == ParserErrorKind::NumberWithoutDigitsAfterDecimalSeparator
    ||| kind == ParserErrorKind::NumberWithoutDigitsAfterExponentToken
    ||| kind == ParserErrorKind::NumberTooBig
    ||| kind == ParserErrorKind::NumberTooBigExponent
}

/// Which hard error a number parse raises when a literal starts at `p` and
/// the parse fails: the first of the four conditions that strikes, in scan
/// order.
pub open spec fn spec_number_error(src: Seq<char>, p: int) -> ParserErrorKind {
    if spec_frac_missing(src, p) {
        ParserErrorKind::NumberWithoutDigitsAfterDecimalSeparator
    } else if spec_exp_missing(src, p) {
        ParserErrorKind::NumberWithoutDigitsAfterExponentToken
    } else if spec_frac_too_big(src, p) {
        ParserErrorKind::NumberTooBig
    } else {
        ParserErrorKind::NumberTooBigExponent
    }
}

/// Whether the parse succeeds: a literal starts and none of the four hard
/// errors strikes.
pub open spec fn spec_number_ok(src: Seq<char>, p: int) -> bool {
    &&& spec_number_starts(src, p)
    &&& !spec_frac_missing(src, p)
    &&& !spec_exp_missing(src, p)
    &&& !spec_frac_too_big(src, p)
    &&& !spec_exp_too_big(src, p)
}

/// Whether the integer part earns a leading-zeros warning: surplus zeros in
/// front (a plain `0` is fine).
pub open spec fn spec_warn_leading_int(src: Seq<char>, p: int) -> bool {
    spec_int_seq(src, p).len() >= 2 && spec_int_seq(src, p)[0] == 0
}

/// Whether the exponent earns a leading-zeros warning: it starts with a
/// zero digit (which also covers a redundant all-zero exponent).
pub open spec fn spec_warn_leading_exp(src: Seq<char>, p: int) -> bool {
    spec_has_exp(src, p) && spec_exp_seq(src, p).len() >= 1 && spec_exp_seq(src, p)[0] == 0
}

/// Whether the fractional part earns a trailing-zeros warning: it ends with
/// a zero digit (which also covers a redundant all-zero fraction).
pub open spec fn spec_warn_trailing(src: Seq<char>, p: int) -> bool {
    spec_frac_seq(src, p).len() >= 1 && spec_frac_seq(src, p).last() == 0
}

/// How many warnings the parse of the literal at `p` adds under `ignore`
/// flags `(leading, trailing)`.
pub open spec fn spec_warning_count(src: Seq<char>, p: int, lead: bool, trail: bool) -> int {
    (if !lead && spec_warn_leading_int(src, p) {
        1int
    } else {
        0int
    }) + (if !lead && spec_warn_leading_exp(src, p) {
        1int
    } else {
        0int
    }) + (if !trail && spec_warn_trailing(src, p) {
        1int
    } else {
        0int
    })
}

/// A real number.
#[derive(Debug, Clone)]
pub struct Number {
    pub span: Span,
    pub value: Rational,
}

impl Number {
    // GETTERS ----------------------------------------------------------------

    pub fn span(&self) -> (r: &Span)
        ensures
            r == self.span,
    {
        &self.span
    }

    pub fn span_content(&self) -> (r: &str)
        ensures
            r@ == self.span.content@,
    {
        self.span.content.as_str()
    }

    /// The exact rational value of the literal.
    pub fn value(&self) -> (r: &Rational)
        ensures
            r == self.value,
    {
        &self.value
    }

    // STATIC METHODS ---------------------------------------------------------

    /// Parses a real number in decimal radix:
    /// `digits ('.' digits)? ([eE] [+-]? digits)?`. The value is the exact
    /// rational the literal denotes; redundant zeros are reported as
    /// warnings, oversized parts as hard errors.
    #[verifier::rlimit(100)]
    #[verifier::spinoff_prover]
    pub fn parse_decimal(input: &mut ParserInput) -> (r: ParserResult<Number>)
        requires
            old(input).wf(),
        ensures
            final(input).wf(),
            final(input).content == old(input).content,
            final(input).context.file_path == old(input).context.file_path,
            final(input).context.ignore == old(input).context.ignore,
            r is Ok <==> spec_number_ok(old(input).src(), old(input).pos()),
            r is Ok ==> {
                let src = old(input).src();
                let p = old(input).pos();
                let node = r->Ok_0;
                &&& node.span.wf(src)
                &&& node.span.start == old(input).cursor
                &&& node.span.end == final(input).cursor
                &&& final(input).pos() == spec_token_end(src, p)
                &&& p < final(input).pos()
                &&& node.value.inv()
                &&& (node.value.digits@, node.value.exponent as int) == spec_canon(
                    spec_mantissa_seq(src, p),
                    spec_scale(src, p),
                )
                &&& node.value.denotes(
                    digits_to_nat(spec_mantissa_seq(src, p)),
                    spec_scale(src, p),
                )
            },
            r is Ok ==> {
                let src = old(input).src();
                let p = old(input).pos();
                let lead = old(input).context.ignore.number_leading_zeroes;
                let trail = old(input).context.ignore.number_trailing_zeroes;
                let n0 = old(input).context.warnings@.len() as int;
                &&& final(input).context.warnings@.len() == n0 + spec_warning_count(
                    src,
                    p,
                    lead,
                    trail,
                )
                &&& (forall|i: int|
                    0 <= i < n0 ==> final(input).context.warnings@[i] == old(input).context.warnings@[i])
                &&& (!lead && spec_warn_leading_int(src, p) ==> final(input).context.warnings@[n0].kind == ParserWarningKind::NumberWithLeadingZeroes)
                &&& (!lead && spec_warn_leading_exp(src, p) ==> final(input).context.warnings@[n0 + (if !lead && spec_warn_leading_int(src, p) {
                    1int
                } else {
                    0int
                })].kind == ParserWarningKind::NumberWithLeadingZeroes)
                &&& (!trail && spec_warn_trailing(src, p) ==> final(input).context.warnings@[final(input).context.warnings@.len() - 1].kind
                    == ParserWarningKind::NumberWithTrailingZeroes)
            },
            r is Err ==> final(input).context.warnings == old(input).context.warnings,
            final(input).context.warnings@.len() >= old(input).context.warnings@.len(),
            forall|i: int|
                0 <= i < old(input).context.warnings@.len() ==> final(input).context.warnings@[i]
                    == old(input).context.warnings@[i],
            forall|i: int|
                old(input).context.warnings@.len() <= i < final(input).context.warnings@.len()
                    ==> (#[trigger] final(input).context.warnings@[i].kind)
                    == ParserWarningKind::NumberWithLeadingZeroes || final(input).context.warnings@[i].kind
                    == ParserWarningKind::NumberWithTrailingZeroes,
            (r is Err && r->Err_0 is NotFound) <==> !spec_number_starts(
                old(input).src(),
                old(input).pos(),
            ),
            (r is Err && r->Err_0 is NotFound) ==> *final(input) == *old(input),
            (r is Err && r->Err_0 is Error) ==> spec_is_number_error(r->Err_0->Error_1.kind),
            (r is Err && r->Err_0 is Error) ==> r->Err_0->Error_1.kind == spec_number_error(
                old(input).src(),
                old(input).pos(),
            ),
            (r is Err && r->Err_0 is Error) ==> {
                let e = r->Err_0->Error_1;
                let src = old(input).src();
                let p = old(input).pos();
                &&& (spec_frac_missing(src, p) ==> e.kind
                    == ParserErrorKind::NumberWithoutDigitsAfterDecimalSeparator)
                &&& (!spec_frac_missing(src, p) && spec_exp_missing(src, p) ==> e.kind
                    == ParserErrorKind::NumberWithoutDigitsAfterExponentToken)
                &&& (!spec_frac_missing(src, p) && !spec_exp_missing(src, p)
                    && spec_frac_too_big(src, p) ==> e.kind == ParserErrorKind::NumberTooBig)
                &&& (!spec_frac_missing(src, p) && !spec_exp_missing(src, p)
                    && !spec_frac_too_big(src, p) && spec_exp_too_big(src, p) ==> e.kind
                    == ParserErrorKind::NumberTooBigExponent)
            },
    {
        let ghost src = old(input).src();
        let ghost p = old(input).pos();
        let init_cursor = input.save_cursor();

        let (int_digits, frac_digits, exp_digits, has_exp, exp_negative) = match lex_decimal(
            input,
        ) {
            Ok(v) => v,
            Err(e) => {
                return Err(e);
            },
        };

        // The fractional part, trailing zeros trimmed, must fit a u32.
        let mut trimmed_frac: Vec<u8> = Vec::new();
        let mut ci: usize = 0;
        while ci < frac_digits.len()
            invariant
                ci <= frac_digits@.len(),
                trimmed_frac@ == frac_digits@.take(ci as int),
            decreases frac_digits@.len() - ci,
        {
            let d = frac_digits[ci];
            trimmed_frac.push(d);
            proof {
                assert(frac_digits@.take(ci + 1) =~= frac_digits@.take(ci as int).push(
                    frac_digits@[ci as int],
                ));
            }
            ci = ci + 1;
        }
        proof {
            assert(frac_digits@.take(frac_digits@.len() as int) =~= frac_digits@);
            assert(trimmed_frac@ == frac_digits@);
        }
        while trimmed_frac.len() > 0 && trimmed_frac[trimmed_frac.len() - 1] == 0
            invariant
                all_digits(trimmed_frac@),
                trim_trailing_zeros_digits(trimmed_frac@) == trim_trailing_zeros_digits(
                    frac_digits@,
                ),
                trimmed_frac@.len() <= frac_digits@.len(),
            decreases trimmed_frac@.len(),
        {
            let ghost before = trimmed_frac@;
            trimmed_frac.pop();
            proof {
                assert(trimmed_frac@ =~= before.drop_last());
            }
        }
        proof {
            assert(trim_trailing_zeros_digits(trimmed_frac@) == trimmed_frac@);
        }
        match digits_value_capped(&trimmed_frac) {
            Some(v) => {
                if v > 0xFFFF_FFFFu128 {
                    let error = Self::error_too_big(input, &init_cursor);
                    return Err(ParserResultError::Error(input.save_cursor(), error));
                }
            },
            None => {
                proof {
                    lemma_pow10_values();
                }
                let error = Self::error_too_big(input, &init_cursor);
                return Err(ParserResultError::Error(input.save_cursor(), error));
            },
        }

        // The exponent must fit a signed 32-bit integer.
        let mut exp_value: i64 = 0;
        if has_exp {
            match digits_value_capped(&exp_digits) {
                Some(v) => {
                    if exp_negative {
                        if v > 0x8000_0000u128 {
                            let error = Self::error_too_big_exponent(input, &init_cursor);
                            return Err(ParserResultError::Error(input.save_cursor(), error));
                        }
                        exp_value = -(v as i64);
                    } else {
                        if v > 0x7FFF_FFFFu128 {
                            let error = Self::error_too_big_exponent(input, &init_cursor);
                            return Err(ParserResultError::Error(input.save_cursor(), error));
                        }
                        exp_value = v as i64;
                    }
                },
                None => {
                    proof {
                        lemma_pow10_values();
                    }
                    let error = Self::error_too_big_exponent(input, &init_cursor);
                    return Err(ParserResultError::Error(input.save_cursor(), error));
                },
            }
        }
        proof {
            assert(exp_value as int == spec_exp_value(src, p));
            assert(!spec_exp_too_big(src, p));
        }

        // Warnings about redundant zeros. Each reporter checks the ignore
        // flag and its own zero condition.
        let ghost n0 = input.context.warnings@.len() as int;
        Self::warning_leading_zeroes_integer_part(input, &init_cursor, &int_digits);
        Self::warning_leading_zeroes_exponent(input, &init_cursor, &exp_digits);
        Self::warning_trailing_zeroes(input, &init_cursor, &frac_digits);

        // The exact value: the mantissa digits scaled by the exponent, less
        // one power of ten per fractional digit.
        let mut mantissa = int_digits;
        proof {
            assert(mantissa@ =~= spec_int_seq(src, p) + frac_digits@.take(0));
        }
        let mut k: usize = 0;
        while k < frac_digits.len()
            invariant
                k <= frac_digits@.len(),
                mantissa@ == spec_int_seq(src, p) + frac_digits@.take(k as int),
                all_digits(frac_digits@),
                all_digits(spec_int_seq(src, p)),
            decreases frac_digits@.len() - k,
        {
            let d = frac_digits[k];
            mantissa.push(d);
            proof {
                assert(spec_int_seq(src, p) + frac_digits@.take(k + 1) =~= (spec_int_seq(src, p)
                    + frac_digits@.take(k as int)).push(frac_digits@[k as int]));
            }
            k = k + 1;
        }
        proof {
            assert(frac_digits@.take(frac_digits@.len() as int) =~= frac_digits@);
            assert(mantissa@ == spec_mantissa_seq(src, p));
        }

        let exponent: i128 = exp_value as i128 - frac_digits.len() as i128;
        proof {
            assert(exponent as int == spec_scale(src, p));
        }
        proof {
            lemma_token_bounds(src, p);
            lemma_digits_end(src, p);
            assert(spec_int_seq(src, p).len() <= old(input).src().len());
            assert(mantissa@.len() == spec_int_seq(src, p).len() + frac_digits@.len());
            assert(exponent + mantissa@.len() == exp_value + spec_int_seq(src, p).len());
        }
        let value = Rational::new(mantissa, exponent);
        let span = input.substring_to_current(&init_cursor);
        Ok(Number { span, value })
    }

    // DIAGNOSTICS ------------------------------------------------------------

    /// The error for a fractional part that exceeds what the machine
    /// handles.
    pub fn error_too_big(input: &ParserInput, init_cursor: &Cursor) -> (r: ParserError)
        ensures
            r.kind == ParserErrorKind::NumberTooBig,
            r.log.highlights@.len() == 1,
            r.log.highlights@[0] is Section,
            r.log.highlights@[0]->Section_start == init_cursor.byte_offset,
            r.log.highlights@[0]->Section_end == input.cursor.byte_offset,
    {
        let mut highlights: Vec<Highlight> = Vec::new();
        highlights.push(
            Highlight::Section {
                start: init_cursor.byte_offset(),
                end: input.byte_offset(),
                message: None,
                marked: false,
            },
        );
        generate_error(
            ParserErrorKind::NumberTooBig,
            "The number is too big to be handled",
            highlights,
        )
    }

    /// The error for an exponent that exceeds the signed 32-bit range.
    pub fn error_too_big_exponent(input: &ParserInput, init_cursor: &Cursor) -> (r: ParserError)
        ensures
            r.kind == ParserErrorKind::NumberTooBigExponent,
            r.log.highlights@.len() == 1,
            r.log.highlights@[0] is Section,
            r.log.highlights@[0]->Section_start == init_cursor.byte_offset,
            r.log.highlights@[0]->Section_end == input.cursor.byte_offset,
    {
        let mut highlights: Vec<Highlight> = Vec::new();
        highlights.push(
            Highlight::Section {
                start: init_cursor.byte_offset(),
                end: input.byte_offset(),
                message: None,
                marked: true,
            },
        );
        generate_error(
            ParserErrorKind::NumberTooBigExponent,
            "The exponent of the number is too big to be handled",
            highlights,
        )
    }

    /// The error for a decimal separator with no digit after it.
    pub fn error_without_digits_after_decimal_separator(input: &ParserInput, init_cursor: &Cursor)
        -> (r: ParserError)
        ensures
            r.kind == ParserErrorKind::NumberWithoutDigitsAfterDecimalSeparator,
            r.log.highlights@.len() == 2,
            r.log.highlights@[0] is Section,
            r.log.highlights@[0]->Section_start == init_cursor.byte_offset,
            r.log.highlights@[0]->Section_end == input.cursor.byte_offset,
            r.log.highlights@[1] is Point,
            r.log.highlights@[1]->Point_at == input.cursor.byte_offset,
    {
        let mut highlights: Vec<Highlight> = Vec::new();
        highlights.push(
            Highlight::Section {
                start: init_cursor.byte_offset(),
                end: input.byte_offset(),
                message: None,
                marked: true,
            },
        );
        highlights.push(
            Highlight::Point {
                at: input.byte_offset(),
                message: Some("Add a digit here, e.g. 0".to_owned()),
            },
        );
        generate_error(
            ParserErrorKind::NumberWithoutDigitsAfterDecimalSeparator,
            "At least one digit was expected after the decimal separator '.'",
            highlights,
        )
    }

    /// The error for an exponent token with no digit after it.
    pub fn error_without_digits_after_exponent_token(input: &ParserInput, init_cursor: &Cursor)
        -> (r: ParserError)
        ensures
            r.kind == ParserErrorKind::NumberWithoutDigitsAfterExponentToken,
            r.log.highlights@.len() == 2,
            r.log.highlights@[0] is Section,
            r.log.highlights@[0]->Section_start == init_cursor.byte_offset,
            r.log.highlights@[0]->Section_end == input.cursor.byte_offset,
            r.log.highlights@[1] is Point,
            r.log.highlights@[1]->Point_at == input.cursor.byte_offset,
    {
        let mut highlights: Vec<Highlight> = Vec::new();
        highlights.push(
            Highlight::Section {
                start: init_cursor.byte_offset(),
                end: input.byte_offset(),
                message: None,
                marked: true,
            },
        );
        highlights.push(
            Highlight::Point {
                at: input.byte_offset(),
                message: Some("Add a digit here, e.g. 0".to_owned()),
            },
        );
        generate_error(
            ParserErrorKind::NumberWithoutDigitsAfterExponentToken,
            "At least one digit was expected after the exponent token",
            highlights,
        )
    }

    /// Reports surplus leading zeros in the integer part.
    pub fn warning_leading_zeroes_integer_part(
        input: &mut ParserInput,
        init_cursor: &Cursor,
        int_digits: &Vec<u8>,
    )
        requires
            old(input).wf(),
        ensures
            final(input).wf(),
            final(input).content == old(input).content,
            final(input).cursor == old(input).cursor,
            final(input).context.file_path == old(input).context.file_path,
            final(input).context.ignore == old(input).context.ignore,
            ({
                let fire = !old(input).context.ignore.number_leading_zeroes && int_digits@.len()
                    >= 2 && int_digits@[0] == 0;
                &&& (fire ==> final(input).context.warnings@.len() == old(
                    input,
                ).context.warnings@.len() + 1 && final(input).context.warnings@.last().kind
                    == ParserWarningKind::NumberWithLeadingZeroes)
                &&& (!fire ==> final(input).context == old(input).context)
            }),
            forall|i: int|
                0 <= i < old(input).context.warnings@.len() ==> final(input).context.warnings@[i]
                    == old(input).context.warnings@[i],
    {
        if input.context.ignore.number_leading_zeroes || int_digits.len() < 2 || int_digits[0] != 0
        {
            return ;
        }
        let mut zeroes: usize = 0;
        let mut i: usize = 0;
        while i < int_digits.len() && int_digits[i] == 0
            invariant
                zeroes == i <= int_digits@.len(),
            decreases int_digits@.len() - i,
        {
            zeroes = zeroes + 1;
            i = i + 1;
        }
        if zeroes == int_digits.len() && zeroes > 0 {
            zeroes = zeroes - 1;
        }
        let end_zeroes = if zeroes <= usize::MAX - init_cursor.byte_offset() {
            init_cursor.byte_offset() + zeroes
        } else {
            usize::MAX
        };
        let mut highlights: Vec<Highlight> = Vec::new();
        highlights.push(
            Highlight::Section {
                start: init_cursor.byte_offset(),
                end: end_zeroes,
                message: Some(
                    if zeroes == 1 {
                        "Remove this zero".to_owned()
                    } else {
                        "Remove these zeroes".to_owned()
                    },
                ),
                marked: false,
            },
        );
        highlights.push(
            Highlight::Section {
                start: end_zeroes,
                end: input.byte_offset(),
                message: None,
                marked: true,
            },
        );
        let warning = generate_warning(
            ParserWarningKind::NumberWithLeadingZeroes,
            "Leading zeroes in the integer part of a number are unnecessary",
            highlights,
        );
        let context = input.context_mut();
        context.add_warning(warning);
    }

    /// Reports surplus leading zeros in the exponent, or a redundant
    /// exponent whose value is zero.
    pub fn warning_leading_zeroes_exponent(
        input: &mut ParserInput,
        init_cursor: &Cursor,
        exp_digits: &Vec<u8>,
    )
        requires
            old(input).wf(),
        ensures
            final(input).wf(),
            final(input).content == old(input).content,
            final(input).cursor == old(input).cursor,
            final(input).context.file_path == old(input).context.file_path,
            final(input).context.ignore == old(input).context.ignore,
            ({
                let fire = !old(input).context.ignore.number_leading_zeroes && exp_digits@.len()
                    >= 1 && exp_digits@[0] == 0;
                &&& (fire ==> final(input).context.warnings@.len() == old(
                    input,
                ).context.warnings@.len() + 1 && final(input).context.warnings@.last().kind
                    == ParserWarningKind::NumberWithLeadingZeroes)
                &&& (!fire ==> final(input).context == old(input).context)
            }),
            forall|i: int|
                0 <= i < old(input).context.warnings@.len() ==> final(input).context.warnings@[i]
                    == old(input).context.warnings@[i],
    {
        if input.context.ignore.number_leading_zeroes || exp_digits.len() < 1 || exp_digits[0] != 0
        {
            return ;
        }
        let mut all_zero = true;
        let mut i: usize = 0;
        while i < exp_digits.len()
            invariant
                i <= exp_digits@.len(),
            decreases exp_digits@.len() - i,
        {
            if exp_digits[i] != 0 {
                all_zero = false;
            }
            i = i + 1;
        }
        let mut highlights: Vec<Highlight> = Vec::new();
        highlights.push(
            Highlight::Section {
                start: init_cursor.byte_offset(),
                end: input.byte_offset(),
                message: Some(
                    if all_zero {
                        "Remove the exponent".to_owned()
                    } else {
                        "Remove these zeroes".to_owned()
                    },
                ),
                marked: true,
            },
        );
        let warning = generate_warning(
            ParserWarningKind::NumberWithLeadingZeroes,
            if all_zero {
                "The exponent of the number is unnecessary"
            } else {
                "Leading zeroes in the exponent of a number are unnecessary"
            },
            highlights,
        );
        let context = input.context_mut();
        context.add_warning(warning);
    }

    /// Reports trailing zeros in the fractional part, or a redundant
    /// all-zero fractional part.
    pub fn warning_trailing_zeroes(
        input: &mut ParserInput,
        init_cursor: &Cursor,
        frac_digits: &Vec<u8>,
    )
        requires
            old(input).wf(),
        ensures
            final(input).wf(),
            final(input).content == old(input).content,
            final(input).cursor == old(input).cursor,
            final(input).context.file_path == old(input).context.file_path,
            final(input).context.ignore == old(input).context.ignore,
            ({
                let fire = !old(input).context.ignore.number_trailing_zeroes && frac_digits@.len()
                    >= 1 && frac_digits@.last() == 0;
                &&& (fire ==> final(input).context.warnings@.len() == old(
                    input,
                ).context.warnings@.len() + 1 && final(input).context.warnings@.last().kind
                    == ParserWarningKind::NumberWithTrailingZeroes)
                &&& (!fire ==> final(input).context == old(input).context)
            }),
            forall|i: int|
                0 <= i < old(input).context.warnings@.len() ==> final(input).context.warnings@[i]
                    == old(input).context.warnings@[i],
    {
        if input.context.ignore.number_trailing_zeroes || frac_digits.len() < 1
            || frac_digits[frac_digits.len() - 1] != 0 {
            return ;
        }
        let mut all_zero = true;
        let mut i: usize = 0;
        while i < frac_digits.len()
            invariant
                i <= frac_digits@.len(),
            decreases frac_digits@.len() - i,
        {
            if frac_digits[i] != 0 {
                all_zero = false;
            }
            i = i + 1;
        }
        let mut highlights: Vec<Highlight> = Vec::new();
        highlights.push(
            Highlight::Section {
                start: init_cursor.byte_offset(),
                end: input.byte_offset(),
                message: Some(
                    if all_zero {
                        "Remove the decimal part".to_owned()
                    } else {
                        "Remove these zeroes".to_owned()
                    },
                ),
                marked: true,
            },
        );
        let warning = generate_warning(
            ParserWarningKind::NumberWithTrailingZeroes,
            if all_zero {
                "The decimal part of the number is unnecessary"
            } else {
                "Trailing zeroes in the decimal part of a number are unnecessary"
            },
            highlights,
        );
        let context = input.context_mut();
        context.add_warning(warning);
    }
}


/// The lexical pass of a number parse: the three digit groups of the
/// literal, leaving the input just past it.
fn lex_decimal(input: &mut ParserInput) -> (r: ParserResult<(Vec<u8>, Vec<u8>, Vec<u8>, bool, bool)>)
    requires
        old(input).wf(),
    ensures
        final(input).wf(),
        final(input).content == old(input).content,
        final(input).context == old(input).context,
        r is Ok <==> spec_number_starts(old(input).src(), old(input).pos()) && !spec_frac_missing(
            old(input).src(),
            old(input).pos(),
        ) && !spec_exp_missing(old(input).src(), old(input).pos()),
        r is Ok ==> {
            let src = old(input).src();
            let p = old(input).pos();
            let (int_digits, frac_digits, exp_digits, has_exp, exp_negative) = r->Ok_0;
            &&& int_digits@ == spec_int_seq(src, p)
            &&& frac_digits@ == spec_frac_seq(src, p)
            &&& exp_digits@ == spec_exp_seq(src, p)
            &&& has_exp == spec_has_exp(src, p)
            &&& exp_negative == spec_exp_negative(src, p)
            &&& all_digits(int_digits@)
            &&& all_digits(frac_digits@)
            &&& all_digits(exp_digits@)
            &&& final(input).pos() == spec_token_end(src, p)
        },
        (r is Err && r->Err_0 is NotFound) <==> !spec_number_starts(
            old(input).src(),
            old(input).pos(),
        ),
        (r is Err && r->Err_0 is NotFound) ==> *final(input) == *old(input),
        (r is Err && r->Err_0 is Error) ==> spec_is_number_error(r->Err_0->Error_1.kind),
        (r is Err && r->Err_0 is Error) ==> {
            let e = r->Err_0->Error_1;
            let src = old(input).src();
            let p = old(input).pos();
            &&& (spec_frac_missing(src, p) <==> e.kind
                == ParserErrorKind::NumberWithoutDigitsAfterDecimalSeparator)
            &&& (!spec_frac_missing(src, p) ==> spec_exp_missing(src, p) && e.kind
                == ParserErrorKind::NumberWithoutDigitsAfterExponentToken)
        },
{
    let ghost src = old(input).src();
    let ghost p = old(input).pos();
    let init_cursor = input.save_cursor();

    // Integer digits.
    let digit_here = match input.peek() {
        Some(c) => is_digit_char(c),
        None => false,
    };
    if !digit_here {
        return Err(ParserResultError::NotFound);
    }
    let mut int_digits: Vec<u8> = Vec::new();
    scan_digits(input, &mut int_digits);
    proof {
        assert(int_digits@ =~= spec_int_seq(src, p));
    }

    // Fractional digits.
    let mut frac_digits: Vec<u8> = Vec::new();
    let dot_here = match input.peek() {
        Some(c) => c == '.',
        None => false,
    };
    if dot_here {
        input.advance();
        scan_digits(input, &mut frac_digits);
        if frac_digits.len() == 0 {
            let error = Number::error_without_digits_after_decimal_separator(input, &init_cursor);
            return Err(ParserResultError::Error(input.save_cursor(), error));
        }
    }
    proof {
        if spec_has_dot(src, p) {
            assert(frac_digits@ =~= spec_frac_seq(src, p));
        } else {
            assert(frac_digits@ =~= spec_frac_seq(src, p));
        }
        assert(!spec_frac_missing(src, p));
    }

    // Exponent.
    let mut exp_digits: Vec<u8> = Vec::new();
    let mut has_exp = false;
    let mut exp_negative = false;
    let exp_here = match input.peek() {
        Some(c) => c == 'e' || c == 'E',
        None => false,
    };
    if exp_here {
        has_exp = true;
        input.advance();
        let sign_here = match input.peek() {
            Some(c) => {
                if c == '-' {
                    exp_negative = true;
                    true
                } else {
                    c == '+'
                }
            },
            None => false,
        };
        if sign_here {
            input.advance();
        }
        scan_digits(input, &mut exp_digits);
        if exp_digits.len() == 0 {
            let error = Number::error_without_digits_after_exponent_token(input, &init_cursor);
            return Err(ParserResultError::Error(input.save_cursor(), error));
        }
    }
    proof {
        if spec_has_exp(src, p) {
            assert(exp_digits@ =~= spec_exp_seq(src, p));
        } else {
            assert(exp_digits@ =~= spec_exp_seq(src, p));
        }
        assert(!spec_exp_missing(src, p));
        assert(exp_negative == spec_exp_negative(src, p));
        assert(input.pos() == spec_token_end(src, p));
    }
    Ok((int_digits, frac_digits, exp_digits, has_exp, exp_negative))
}


/// A digit run inside a window of the source is the same run when the
/// window is parsed on its own, as long as the run ends inside the window.
proof fn lemma_digits_end_shift(src: Seq<char>, p: int, t_end: int, i: int)
    requires
        0 <= p <= i <= t_end <= src.len(),
        spec_digits_end(src, i) <= t_end,
    ensures
        spec_digits_end(src.subrange(p, t_end), i - p) == spec_digits_end(src, i) - p,
    decreases t_end - i,
{
    let t = src.subrange(p, t_end);
    lemma_digits_end(src, i);
    if i == t_end {
        assert(spec_digits_end(t, i - p) == i - p);
    } else {
        assert(t[i - p] == src[i]);
        if spec_is_digit(src[i]) {
            assert(spec_digits_end(src, i) == spec_digits_end(src, i + 1));
            lemma_digits_end_shift(src, p, t_end, i + 1);
        } else {
            assert(spec_digits_end(t, i - p) == i - p);
        }
    }
}

/// Digit values inside a window of the source are the values of the same
/// characters in the window.
proof fn lemma_digit_seq_shift(src: Seq<char>, p: int, t_end: int, a: int, b: int)
    requires
        0 <= p <= a,
        a <= b <= t_end <= src.len(),
    ensures
        spec_digit_seq(src.subrange(p, t_end), a - p, b - p) == spec_digit_seq(src, a, b),
{
    assert(spec_digit_seq(src.subrange(p, t_end), a - p, b - p) =~= spec_digit_seq(src, a, b));
}

/// The literal the parse consumed, parsed on its own, is the same literal:
/// it spans the whole text, its parts sit at the same relative places, and
/// its mantissa and scale are the same. Together with the contract of
/// [`Number::parse_decimal`] this is the round trip: parsing the span
/// content of a parsed number succeeds and yields the same canonical value.
pub proof fn law_number_round_trip(src: Seq<char>, p: int)
    requires
        0 <= p <= src.len(),
        spec_number_ok(src, p),
    ensures
        ({
            let t = src.subrange(p, spec_token_end(src, p));
            &&& spec_number_ok(t, 0)
            &&& spec_token_end(t, 0) == t.len()
            &&& spec_mantissa_seq(t, 0) == spec_mantissa_seq(src, p)
            &&& spec_scale(t, 0) == spec_scale(src, p)
        }),
{
    let q = spec_token_end(src, p);
    let t = src.subrange(p, q);
    lemma_token_bounds(src, p);
    lemma_digits_end(src, p);

    // The integer run.
    let ie = spec_int_end(src, p);
    assert(ie <= q) by {
        if spec_has_dot(src, p) {
            lemma_digits_end(src, spec_frac_start(src, p));
        }
        if spec_has_exp(src, p) {
            lemma_digits_end(src, spec_exp_start(src, p));
        }
    }
    lemma_digits_end_shift(src, p, q, p);
    assert(spec_int_end(t, 0) == ie - p);
    assert(spec_number_starts(t, 0)) by {
        assert(t[0] == src[p]);
    }

    // The fractional part.
    if spec_has_dot(src, p) {
        let fs = spec_frac_start(src, p);
        let fe = spec_frac_end(src, p);
        lemma_digits_end(src, fs);
        assert(fe <= q) by {
            if spec_has_exp(src, p) {
                lemma_digits_end(src, spec_exp_start(src, p));
            }
        }
        assert(t[ie - p] == src[ie]);
        assert(spec_has_dot(t, 0));
        lemma_digits_end_shift(src, p, q, fs);
        assert(spec_frac_end(t, 0) == fe - p);
        assert(!spec_frac_missing(t, 0));
        lemma_digit_seq_shift(src, p, q, fs, fe);
        assert(spec_frac_seq(t, 0) == spec_frac_seq(src, p));
        assert(spec_after_frac(t, 0) == spec_after_frac(src, p) - p);
    } else {
        assert(!spec_has_dot(t, 0)) by {
            if ie - p < t.len() {
                assert(t[ie - p] == src[ie]);
            }
        }
        assert(spec_frac_seq(t, 0) =~= spec_frac_seq(src, p));
        assert(spec_after_frac(t, 0) == spec_after_frac(src, p) - p);
    }

    // The exponent.
    let af = spec_after_frac(src, p);
    if spec_has_exp(src, p) {
        let es = spec_exp_start(src, p);
        let ee = spec_exp_end(src, p);
        lemma_digits_end(src, es);
        assert(t[af - p] == src[af]);
        assert(spec_has_exp(t, 0));
        assert(af + 1 <= q);
        if spec_has_sign(src, p) {
            assert(t[af + 1 - p] == src[af + 1]);
            assert(es == af + 2);
            assert(es <= ee <= q);
            assert(spec_has_sign(t, 0));
        } else {
            if af + 1 < q {
                assert(t[af + 1 - p] == src[af + 1]);
            }
            assert(!spec_has_sign(t, 0));
        }
        assert(spec_exp_start(t, 0) == es - p);
        lemma_digits_end_shift(src, p, q, es);
        assert(spec_exp_end(t, 0) == ee - p);
        assert(!spec_exp_missing(t, 0));
        lemma_digit_seq_shift(src, p, q, es, ee);
        assert(spec_exp_seq(t, 0) == spec_exp_seq(src, p));
        assert(spec_exp_negative(t, 0) == spec_exp_negative(src, p));
        assert(spec_token_end(t, 0) == t.len());
    } else {
        assert(!spec_has_exp(t, 0)) by {
            if af - p < t.len() {
                assert(t[af - p] == src[af]);
            }
        }
        assert(spec_exp_seq(t, 0) =~= spec_exp_seq(src, p));
        assert(spec_exp_negative(t, 0) == spec_exp_negative(src, p));
        assert(spec_token_end(t, 0) == t.len());
    }

    // The same parts give the same value and the same error-freedom.
    lemma_digit_seq_shift(src, p, q, p, ie);
    assert(spec_int_seq(t, 0) == spec_int_seq(src, p));
    assert(spec_mantissa_seq(t, 0) == spec_mantissa_seq(src, p));
    assert(spec_exp_value(t, 0) == spec_exp_value(src, p));
    assert(spec_scale(t, 0) == spec_scale(src, p));
    assert(!spec_frac_too_big(t, 0));
    assert(!spec_exp_too_big(t, 0));
}

/// Appends the digit values of the digit run at the input's position and
/// leaves the input just past the run.
fn scan_digits(input: &mut ParserInput, out: &mut Vec<u8>)
    requires
        old(input).wf(),
    ensures
        final(input).wf(),
        final(input).content == old(input).content,
        final(input).context == old(input).context,
        final(input).cursor.char_offset as int == spec_digits_end(old(input).src(), old(input).pos()),
        old(input).pos() <= final(input).pos() <= old(input).src().len(),
        final(out)@ == old(out)@ + spec_digit_seq(
            old(input).src(),
            old(input).pos(),
            spec_digits_end(old(input).src(), old(input).pos()),
        ),
        all_digits(final(out)@) <== all_digits(old(out)@),
{
    proof {
        lemma_digits_end(old(input).src(), old(input).pos());
        assert(out@ + spec_digit_seq(input.src(), old(input).pos(), old(input).pos()) =~= out@);
    }
    loop
        invariant
            input.wf(),
            input.content == old(input).content,
            input.context == old(input).context,
            old(input).pos() <= input.pos() <= input.src().len(),
            spec_digits_end(input.src(), old(input).pos()) == spec_digits_end(
                input.src(),
                input.pos(),
            ),
            out@ == old(out)@ + spec_digit_seq(input.src(), old(input).pos(), input.pos()),
            all_digits(out@) || !all_digits(old(out)@),
        ensures
            input.wf(),
            input.content == old(input).content,
            input.context == old(input).context,
            input.pos() == spec_digits_end(input.src(), old(input).pos()),
            out@ == old(out)@ + spec_digit_seq(input.src(), old(input).pos(), input.pos()),
            all_digits(out@) || !all_digits(old(out)@),
        decreases input.src().len() - input.pos(),
    {
        let c = match input.peek() {
            Some(c) => c,
            None => {
                break ;
            },
        };
        if !is_digit_char(c) {
            break ;
        }
        let d = (c as u32 - 0x30) as u8;
        out.push(d);
        proof {
            assert(spec_digit_seq(input.src(), old(input).pos(), input.pos() + 1) =~= spec_digit_seq(
                input.src(),
                old(input).pos(),
                input.pos(),
            ).push(d));
        }
        input.advance();
    }
    proof {
        lemma_digits_end(old(input).src(), old(input).pos());
    }
}

/// The value of a digit string when it is small enough to check against the
/// literal bounds; `None` means it exceeds even a u64.
fn digits_value_capped(digits: &Vec<u8>) -> (r: Option<u128>)
    requires
        all_digits(digits@),
    ensures
        r is Some ==> r->0 == digits_to_nat(digits@),
        r is None ==> digits_to_nat(digits@) > u64::MAX,
{
    let mut lead: usize = 0;
    proof {
        assert(digits@.skip(0) =~= digits@);
        crate::parsers::rational::lemma_trim_leading(digits@);
    }
    while lead < digits.len() && digits[lead] == 0
        invariant
            all_digits(digits@),
            lead <= digits@.len(),
            trim_leading_zeros_partial(digits@, lead as int),
        decreases digits@.len() - lead,
    {
        proof {
            assert(digits@.skip(lead as int).skip(1) =~= digits@.skip(lead + 1));
            crate::parsers::rational::lemma_digits_skip_leading_zero(digits@.skip(lead as int));
        }
        lead = lead + 1;
    }
    let effective = digits.len() - lead;
    proof {
        lemma_effective_digits(digits@, lead as int);
    }
    if effective > 20 {
        proof {
            lemma_digits_lower(digits@.skip(lead as int));
            lemma_pow10_increases(20, (effective - 1) as nat);
            lemma_pow10_values();
        }
        return None;
    }
    let mut acc: u128 = 0;
    let mut i: usize = lead;
    proof {
        assert(digits@.subrange(lead as int, lead as int) =~= Seq::<u8>::empty());
    }
    while i < digits.len()
        invariant
            all_digits(digits@),
            lead <= i <= digits@.len(),
            digits@.len() - lead <= 20,
            acc == digits_to_nat(digits@.subrange(lead as int, i as int)),
            acc < pow10((i - lead) as nat),
        decreases digits@.len() - i,
    {
        let d = digits[i];
        proof {
            lemma_pow10_increases((i - lead) as nat, 19);
            lemma_pow10_values();
            assert(pow10(19) * 10 == pow10(20)) by {
                crate::parsers::rational::lemma_pow10_adds(19, 1);
                assert(pow10(19) * pow10(1) == pow10(19) * 10);
            }
            assert(acc * 10 < pow10(19) * 10) by (nonlinear_arith)
                requires
                    acc < pow10(19),
            ;
            assert(digits@.subrange(lead as int, i + 1).drop_last() =~= digits@.subrange(
                lead as int,
                i as int,
            ));
            assert(pow10(20) < 0x1_0000_0000_0000_0000_0000_0000_0000_0000) by {
                lemma_pow10_values();
                lemma_pow10_increases(20, 21);
                assert(pow10(21) < 0x1_0000_0000_0000_0000_0000_0000_0000_0000);
            }
            lemma_pow10_increases((i - lead + 1) as nat, 20);
        }
        acc = acc * 10 + (d as u128);
        i = i + 1;
    }
    proof {
        assert(digits@.subrange(lead as int, digits@.len() as int) =~= digits@.skip(lead as int));
        lemma_pow10_increases((digits@.len() - lead) as nat, 20);
        lemma_pow10_values();
    }
    if acc > 0xFFFF_FFFF_FFFF_FFFFu128 {
        None
    } else {
        Some(acc)
    }
}

/// Whether the first `lead` digits are zeros that do not change the value.
pub open spec fn trim_leading_zeros_partial(s: Seq<u8>, lead: int) -> bool {
    &&& 0 <= lead <= s.len()
    &&& digits_to_nat(s.skip(lead)) == digits_to_nat(s)
    &&& (forall|i: int| 0 <= i < lead ==> #[trigger] s[i] == 0)
}

/// After skipping the zeros, either nothing is left or a nonzero digit
/// leads.
proof fn lemma_effective_digits(s: Seq<u8>, lead: int)
    requires
        trim_leading_zeros_partial(s, lead),
        lead == s.len() || s[lead] != 0,
    ensures
        lead == s.len() || s.skip(lead)[0] != 0,
{
}

} // verus!
