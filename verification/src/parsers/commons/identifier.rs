//! Identifiers: one head character followed by any number of body
//! characters, and keyword matching on top of them.

use vstd::prelude::*;
use vstd::string::StrSliceExecFns;

use crate::parsers::chars::{
    is_identifier_body_char, is_identifier_head_char, spec_is_identifier_body,
    spec_is_identifier_head,
};
use crate::parsers::input::{ParserInput, ParserResult, ParserResultError, Span};

verus! {

/// The first position at or after `i` whose character cannot continue an
/// identifier (the length of the source if none).
pub open spec fn spec_body_run_end(src: Seq<char>, i: int) -> int
    decreases src.len() - i,
{
    if i < 0 || i >= src.len() || !spec_is_identifier_body(src[i]) {
        i
    } else {
        spec_body_run_end(src, i + 1)
    }
}

/// Where the identifier starting at `p` ends: `p` itself when no identifier
/// starts there.
pub open spec fn spec_identifier_end(src: Seq<char>, p: int) -> int {
    if 0 <= p < src.len() && spec_is_identifier_head(src[p]) {
        spec_body_run_end(src, p + 1)
    } else {
        p
    }
}

/// The body run never moves backward and stays within the source.
pub proof fn lemma_body_run_end_bounds(src: Seq<char>, i: int)
    requires
        0 <= i <= src.len(),
    ensures
        i <= spec_body_run_end(src, i) <= src.len(),
    decreases src.len() - i,
{
    if i < src.len() && spec_is_identifier_body(src[i]) {
        lemma_body_run_end_bounds(src, i + 1);
    }
}

/// Every character inside the body run is a body character, and the one at
/// its end (if any) is not.
pub proof fn lemma_body_run_end_chars(src: Seq<char>, i: int)
    requires
        0 <= i <= src.len(),
    ensures
        forall|k: int|
            i <= k < spec_body_run_end(src, i) ==> spec_is_identifier_body(#[trigger] src[k]),
        spec_body_run_end(src, i) == src.len() || !spec_is_identifier_body(
            src[spec_body_run_end(src, i)],
        ),
    decreases src.len() - i,
{
    lemma_body_run_end_bounds(src, i);
    if i < src.len() && spec_is_identifier_body(src[i]) {
        lemma_body_run_end_chars(src, i + 1);
    }
}

/// A valid identifier.
#[derive(Debug, Clone)]
pub struct Identifier {
    pub span: Span,
}

impl Identifier {
    /// The node invariant: a head character followed by body characters.
    pub open spec fn inv(&self) -> bool {
        &&& self.span.content@.len() >= 1
        &&& spec_is_identifier_head(self.span.content@[0])
        &&& forall|k: int|
            1 <= k < self.span.content@.len() ==> spec_is_identifier_body(
                #[trigger] self.span.content@[k],
            )
    }

    // GETTERS ----------------------------------------------------------------

    pub fn span(&self) -> (r: &Span)
        ensures
            r == self.span,
    {
        &self.span
    }

    pub fn span_content(&self) -> (r: &str)
        ensures
            r@ == self.span.content@,
    {
        self.span.content.as_str()
    }

    // STATIC METHODS ---------------------------------------------------------

    /// Parses an identifier: a head character, then the longest run of body
    /// characters.
    pub fn parse(input: &mut ParserInput) -> (r: ParserResult<Identifier>)
        requires
            old(input).wf(),
        ensures
            final(input).wf(),
            final(input).content == old(input).content,
            final(input).context == old(input).context,
            r is Ok <==> old(input).pos() < old(input).src().len() && spec_is_identifier_head(
                old(input).src()[old(input).pos()],
            ),
            r is Ok ==> {
                let node = r->Ok_0;
                &&& node.inv()
                &&& node.span.wf(old(input).src())
                &&& node.span.start == old(input).cursor
                &&& node.span.end == final(input).cursor
                &&& final(input).pos() == spec_identifier_end(old(input).src(), old(input).pos())
                &&& old(input).pos() < final(input).pos()
            },
            r is Err ==> r->Err_0 is NotFound && *final(input) == *old(input),
    {
        let head_ok = match input.peek() {
            Some(c) => is_identifier_head_char(c),
            None => false,
        };
        if !head_ok {
            return Err(ParserResultError::NotFound);
        }
        let init_cursor = input.save_cursor();
        input.advance();

        loop
            invariant
                input.wf(),
                input.content == old(input).content,
                input.context == old(input).context,
                init_cursor == old(input).cursor,
                old(input).pos() < input.pos() <= input.src().len(),
                spec_body_run_end(input.src(), old(input).pos() + 1) == spec_body_run_end(
                    input.src(),
                    input.pos(),
                ),
                forall|k: int|
                    old(input).pos() < k < input.pos() ==> spec_is_identifier_body(
                        #[trigger] input.src()[k],
                    ),
            ensures
                input.wf(),
                input.content == old(input).content,
                input.context == old(input).context,
                old(input).pos() < input.pos() <= input.src().len(),
                spec_body_run_end(input.src(), old(input).pos() + 1) == spec_body_run_end(
                    input.src(),
                    input.pos(),
                ),
                forall|k: int|
                    old(input).pos() < k < input.pos() ==> spec_is_identifier_body(
                        #[trigger] input.src()[k],
                    ),
                input.pos() == input.src().len() || !spec_is_identifier_body(
                    input.src()[input.pos()],
                ),
            decreases input.src().len() - input.pos(),
        {
            match input.peek() {
                Some(c) => {
                    if is_identifier_body_char(c) {
                        input.advance();
                    } else {
                        break ;
                    }
                },
                None => {
                    break ;
                },
            }
        }

        let span = input.substring_to_current(&init_cursor);
        proof {
            assert(forall|k: int|
                1 <= k < span.content@.len() ==> span.content@[k] == old(input).src()[old(input).pos() + k]);
            assert(span.content@[0] == old(input).src()[old(input).pos()]);
        }
        Ok(Identifier { span })
    }

    /// Reads a keyword: an identifier that matches `keyword` exactly. A
    /// longer identifier that merely starts with it does not match.
    pub fn read_keyword(input: &mut ParserInput, keyword: &str) -> (r: ParserResult<()>)
        requires
            old(input).wf(),
        ensures
            final(input).wf(),
            final(input).content == old(input).content,
            final(input).context == old(input).context,
            r is Ok <==> {
                let src = old(input).src();
                let p = old(input).pos();
                &&& p < src.len()
                &&& spec_is_identifier_head(src[p])
                &&& src.subrange(p, spec_identifier_end(src, p)) == keyword@
            },
            r is Ok ==> final(input).pos() == spec_identifier_end(
                old(input).src(),
                old(input).pos(),
            ) && old(input).pos() < final(input).pos(),
            r is Err ==> r->Err_0 is NotFound && *final(input) == *old(input),
    {
        let init_cursor = input.save_cursor();
        let id = match Identifier::parse(input) {
            Ok(v) => v,
            Err(e) => {
                return Err(e);
            },
        };
        if strings_equal(id.span_content(), keyword) {
            Ok(())
        } else {
            input.restore(init_cursor);
            Err(ParserResultError::NotFound)
        }
    }
}

/// Whether two strings hold the same characters.
pub fn strings_equal(a: &str, b: &str) -> (r: bool)
    ensures
        r == (a@ == b@),
{
    let na = a.unicode_len();
    let nb = b.unicode_len();
    if na != nb {
        proof {
            assert(a@ != b@);
        }
        return false;
    }
    let mut i: usize = 0;
    while i < na
        invariant
            na == a@.len() == b@.len(),
            i <= na,
            forall|k: int| 0 <= k < i ==> a@[k] == b@[k],
        decreases na - i,
    {
        if a.get_char(i) != b.get_char(i) {
            return false;
        }
        i = i + 1;
    }
    proof {
        assert(a@ =~= b@);
    }
    true
}

} // verus!
