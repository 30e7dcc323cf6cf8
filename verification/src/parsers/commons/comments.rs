//! Single-line comments: a `#`, then everything up to the next line break.

use vstd::prelude::*;
use vstd::string::StrSliceExecFns;

use crate::parsers::chars::spec_is_line_break;
use crate::parsers::input::{ParserInput, ParserResult, ParserResultError, Span};

verus! {

/// The character a comment starts with.
pub open spec fn spec_comment_start() -> char {
    '#'
}

/// The characters a comment body must not start with.
pub open spec fn spec_is_comment_forbidden(c: char) -> bool {
    c == '[' || c == '{' || c == '(' || c == '+' || c == '-'
}

/// Whether a comment parse finds nothing at position `p` of `src`: there is
/// no `#`, or the body would start with a forbidden character.
pub open spec fn spec_comment_not_found(src: Seq<char>, p: int) -> bool {
    ||| p >= src.len()
    ||| src[p] != spec_comment_start()
    ||| (p + 1 < src.len() && !spec_is_line_break(src[p + 1]) && spec_is_comment_forbidden(
        src[p + 1],
    ))
}

/// A single-line comment.
#[derive(Debug, Clone)]
pub struct Comment {
    pub span: Span,
}

impl Comment {
    /// The node invariant: the content starts with the comment token.
    pub open spec fn inv(&self) -> bool {
        self.span.content@.len() >= 1 && self.span.content@[0] == spec_comment_start()
    }

    // CONSTRUCTORS -----------------------------------------------------------

    /// Creates a new node checking that its span holds a comment.
    pub fn new(span: Span) -> (r: Option<Comment>)
        ensures
            r is Some <==> span.content@.len() >= 1 && span.content@[0] == spec_comment_start(),
            r is Some ==> r->0.inv() && r->0.span == span,
    {
        if span.content.as_str().unicode_len() >= 1 && span.content.as_str().get_char(0) == '#' {
            Some(Comment { span })
        } else {
            None
        }
    }

    // GETTERS ----------------------------------------------------------------

    pub fn span(&self) -> (r: &Span)
        ensures
            r == self.span,
    {
        &self.span
    }

    pub fn span_content(&self) -> (r: &str)
        ensures
            r@ == self.span.content@,
    {
        self.span.content.as_str()
    }

    /// The text of the comment: its content without the leading token.
    pub fn message(&self) -> (r: &str)
        requires
            self.inv(),
        ensures
            r@ == self.span.content@.skip(1),
    {
        let n = self.span.content.as_str().unicode_len();
        self.span.content.as_str().substring_char(1, n)
    }

    // STATIC METHODS ---------------------------------------------------------

    /// Parses a single-line comment: a `#`, then everything up to (not
    /// including) the next line break, whose first character must not be a
    /// forbidden one.
    pub fn parse(input: &mut ParserInput) -> (r: ParserResult<Comment>)
        requires
            old(input).wf(),
        ensures
            final(input).wf(),
            final(input).content == old(input).content,
            final(input).context == old(input).context,
            r is Ok <==> !spec_comment_not_found(old(input).src(), old(input).pos()),
            r is Ok ==> {
                let node = r->Ok_0;
                &&& node.inv()
                &&& node.span.wf(old(input).src())
                &&& node.span.start == old(input).cursor
                &&& node.span.end == final(input).cursor
                &&& old(input).pos() < final(input).pos()
                &&& old(input).src()[old(input).pos()] == spec_comment_start()
                &&& (forall|k: int|
                    old(input).pos() < k < final(input).pos() ==> !spec_is_line_break(
                        #[trigger] old(input).src()[k],
                    ))
                &&& (final(input).pos() == old(input).src().len() || spec_is_line_break(
                    old(input).src()[final(input).pos()],
                ))
            },
            r is Err ==> r->Err_0 is NotFound && *final(input) == *old(input),
    {
        let init_cursor = input.save_cursor();
        let starts = match input.peek() {
            Some(c) => c == '#',
            None => false,
        };
        if !starts {
            return Err(ParserResultError::NotFound);
        }
        input.advance();

        match input.peek() {
            Some(c) => {
                if !crate::parsers::chars::is_line_break_char(c) && (c == '[' || c == '{' || c
                    == '(' || c == '+' || c == '-') {
                    input.restore(init_cursor);
                    return Err(ParserResultError::NotFound);
                }
            },
            None => {},
        }

        loop
            invariant
                input.wf(),
                input.content == old(input).content,
                input.context == old(input).context,
                init_cursor == old(input).cursor,
                old(input).pos() < input.pos(),
                forall|k: int|
                    old(input).pos() < k < input.pos() ==> !spec_is_line_break(
                        #[trigger] input.src()[k],
                    ),
            ensures
                input.wf(),
                input.content == old(input).content,
                input.context == old(input).context,
                old(input).pos() < input.pos(),
                forall|k: int|
                    old(input).pos() < k < input.pos() ==> !spec_is_line_break(
                        #[trigger] input.src()[k],
                    ),
                input.pos() == input.src().len() || spec_is_line_break(input.src()[input.pos()]),
            decreases input.src().len() - input.pos(),
        {
            match input.peek() {
                Some(c) => {
                    if crate::parsers::chars::is_line_break_char(c) {
                        break ;
                    }
                    input.advance();
                },
                None => {
                    break ;
                },
            }
        }

        let span = input.substring_to_current(&init_cursor);
        proof {
            assert(span.content@[0] == old(input).src()[old(input).pos()]);
        }
        Ok(Comment { span })
    }
}

} // verus!
