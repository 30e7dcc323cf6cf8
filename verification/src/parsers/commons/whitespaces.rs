//! Whitespace sections: one or more runs of Unicode white space or
//! comments, used to skip separators between grammar tokens.

use vstd::prelude::*;

use crate::parsers::chars::{is_whitespace_char, spec_is_line_break, spec_is_whitespace};
use crate::parsers::commons::comments::{spec_comment_not_found, spec_comment_start, Comment};
use crate::parsers::input::{ParserInput, ParserResult, ParserResultError, Span};

verus! {

/// Whether one comment spans `src[p..m]`: it starts with the comment token,
/// runs over no line break, and stops only at a line break or the end.
pub open spec fn spec_comment_span(src: Seq<char>, p: int, m: int) -> bool {
    &&& 0 <= p < m <= src.len()
    &&& !spec_comment_not_found(src, p)
    &&& src[p] == spec_comment_start()
    &&& (forall|k: int| p < k < m ==> !spec_is_line_break(#[trigger] src[k]))
    &&& (m == src.len() || spec_is_line_break(src[m]))
}

/// Whether `src[p..q]` consists of white-space characters and comments.
pub open spec fn spec_ws_covers(src: Seq<char>, p: int, q: int) -> bool
    decreases q - p,
{
    ||| p == q
    ||| (p < q && spec_is_whitespace(src[p]) && spec_ws_covers(src, p + 1, q))
    ||| (p < q && exists|m: int|
        p < m <= q && #[trigger] spec_comment_span(src, p, m) && spec_ws_covers(src, m, q))
}

/// Two adjacent runs of white space and comments form one run.
pub proof fn lemma_ws_covers_concat(src: Seq<char>, p: int, m: int, q: int)
    requires
        p <= m <= q,
        spec_ws_covers(src, p, m),
        spec_ws_covers(src, m, q),
    ensures
        spec_ws_covers(src, p, q),
    decreases m - p,
{
    if p < m {
        if spec_is_whitespace(src[p]) && spec_ws_covers(src, p + 1, m) {
            lemma_ws_covers_concat(src, p + 1, m, q);
        } else {
            let mid = choose|mid: int|
                p < mid <= m && #[trigger] spec_comment_span(src, p, mid) && spec_ws_covers(
                    src,
                    mid,
                    m,
                );
            lemma_ws_covers_concat(src, mid, m, q);
            assert(spec_comment_span(src, p, mid) && spec_ws_covers(src, mid, q));
        }
    }
}

/// Whether a whitespace parse finds nothing at position `p` of `src`:
/// neither a white-space character nor a comment starts there.
pub open spec fn spec_whitespace_not_found(src: Seq<char>, p: int) -> bool {
    &&& (p >= src.len() || !spec_is_whitespace(src[p]))
    &&& spec_comment_not_found(src, p)
}

/// The first position at or after `i` whose character breaks the line (the
/// length of the source if none): where a comment that starts before `i`
/// ends.
pub open spec fn spec_break_end(src: Seq<char>, i: int) -> int
    decreases src.len() - i,
{
    if i < 0 || i >= src.len() || spec_is_line_break(src[i]) {
        i
    } else {
        spec_break_end(src, i + 1)
    }
}

/// The break run never moves backward and stays within the source; no
/// character inside it breaks the line, and the one at its end (if any)
/// does.
pub proof fn lemma_break_end(src: Seq<char>, i: int)
    requires
        0 <= i <= src.len(),
    ensures
        i <= spec_break_end(src, i) <= src.len(),
        forall|k: int| i <= k < spec_break_end(src, i) ==> !spec_is_line_break(#[trigger] src[k]),
        spec_break_end(src, i) == src.len() || spec_is_line_break(src[spec_break_end(src, i)]),
    decreases src.len() - i,
{
    if i < src.len() && !spec_is_line_break(src[i]) {
        lemma_break_end(src, i + 1);
    }
}

/// A run of non-breaking characters ends at one place only.
pub proof fn lemma_break_end_unique(src: Seq<char>, i: int, q: int)
    requires
        0 <= i <= q <= src.len(),
        forall|k: int| i <= k < q ==> !spec_is_line_break(#[trigger] src[k]),
        q == src.len() || spec_is_line_break(src[q]),
    ensures
        q == spec_break_end(src, i),
    decreases q - i,
{
    if i < q {
        lemma_break_end_unique(src, i + 1, q);
    }
}

/// Where the maximal run of white space and comments starting at `p` ends:
/// `p` itself when none starts there.
pub open spec fn spec_ws_end(src: Seq<char>, p: int) -> int
    decreases src.len() - p,
    via spec_ws_end_decreases
{
    if p < src.len() && p >= 0 && spec_is_whitespace(src[p]) {
        spec_ws_end(src, p + 1)
    } else if !spec_comment_not_found(src, p) {
        spec_ws_end(src, spec_break_end(src, p + 1))
    } else {
        p
    }
}

#[via_fn]
proof fn spec_ws_end_decreases(src: Seq<char>, p: int) {
    if !(p < src.len() && p >= 0 && spec_is_whitespace(src[p])) && !spec_comment_not_found(src, p) {
        // A found comment means the position is inside the source, and its
        // run reaches past the comment token.
        if p >= 0 {
            lemma_break_end(src, p + 1);
        } else if p + 1 == 0 {
            lemma_break_end(src, 0);
        }
    }
}

/// The maximal run never moves backward and stays within the source.
pub proof fn lemma_ws_end_bounds(src: Seq<char>, p: int)
    requires
        0 <= p <= src.len(),
    ensures
        p <= spec_ws_end(src, p) <= src.len(),
        spec_ws_end(src, p) == p <==> spec_whitespace_not_found(src, p),
    decreases src.len() - p,
{
    if p < src.len() && spec_is_whitespace(src[p]) {
        lemma_ws_end_bounds(src, p + 1);
    } else if !spec_comment_not_found(src, p) {
        lemma_break_end(src, p + 1);
        lemma_ws_end_bounds(src, spec_break_end(src, p + 1));
    }
}

/// A whitespace section that can include comments.
#[derive(Debug, Clone)]
pub struct Whitespace {
    pub span: Span,
}

impl Whitespace {
    // GETTERS ----------------------------------------------------------------

    pub fn span(&self) -> (r: &Span)
        ensures
            r == self.span,
    {
        &self.span
    }

    pub fn span_content(&self) -> (r: &str)
        ensures
            r@ == self.span.content@,
    {
        self.span.content.as_str()
    }

    /// Whether the section spans more than one line.
    pub fn is_multiline(&self) -> (r: bool)
        ensures
            r == (self.span.start.line != self.span.end.line),
    {
        self.span.start.line != self.span.end.line
    }

    // STATIC METHODS ---------------------------------------------------------

    /// Parses a whitespace section: one or more white-space characters or
    /// comments, as many as there are.
    pub fn parse(input: &mut ParserInput) -> (r: ParserResult<Whitespace>)
        requires
            old(input).wf(),
        ensures
            final(input).wf(),
            final(input).content == old(input).content,
            final(input).context == old(input).context,
            r is Ok <==> !spec_whitespace_not_found(old(input).src(), old(input).pos()),
            r is Ok ==> {
                let node = r->Ok_0;
                &&& node.span.wf(old(input).src())
                &&& node.span.start == old(input).cursor
                &&& node.span.end == final(input).cursor
                &&& old(input).pos() < final(input).pos()
                &&& spec_ws_covers(old(input).src(), old(input).pos(), final(input).pos())
                &&& spec_whitespace_not_found(old(input).src(), final(input).pos())
                &&& final(input).pos() == spec_ws_end(old(input).src(), old(input).pos())
            },
            r is Err ==> r->Err_0 is NotFound && *final(input) == *old(input),
            r is Err ==> spec_ws_end(old(input).src(), old(input).pos()) == old(input).pos(),
    {
        let init_cursor = input.save_cursor();
        let mut matched_any = false;

        loop
            invariant
                input.wf(),
                input.content == old(input).content,
                input.context == old(input).context,
                init_cursor == old(input).cursor,
                old(input).pos() <= input.pos(),
                matched_any == (old(input).pos() < input.pos()),
                matched_any ==> !spec_whitespace_not_found(input.src(), old(input).pos()),
                spec_ws_covers(input.src(), old(input).pos(), input.pos()),
                spec_ws_end(input.src(), old(input).pos()) == spec_ws_end(input.src(), input.pos()),
            ensures
                input.wf(),
                input.content == old(input).content,
                input.context == old(input).context,
                old(input).pos() <= input.pos(),
                matched_any == (old(input).pos() < input.pos()),
                matched_any ==> !spec_whitespace_not_found(input.src(), old(input).pos()),
                spec_ws_covers(input.src(), old(input).pos(), input.pos()),
                spec_ws_end(input.src(), old(input).pos()) == spec_ws_end(input.src(), input.pos()),
                spec_whitespace_not_found(input.src(), input.pos()),
            decreases input.src().len() - input.pos(),
        {
            let is_ws = match input.peek() {
                Some(c) => is_whitespace_char(c),
                None => false,
            };
            let ghost step_start = input.pos();
            if is_ws {
                input.advance();
                proof {
                    assert(spec_ws_covers(input.src(), input.pos(), input.pos()));
                    assert(spec_ws_covers(input.src(), step_start, input.pos()));
                    lemma_ws_covers_concat(
                        input.src(),
                        old(input).pos(),
                        step_start,
                        input.pos(),
                    );
                }
                matched_any = true;
                continue ;
            }
            match Comment::parse(input) {
                Ok(_) => {
                    proof {
                        lemma_break_end_unique(input.src(), step_start + 1, input.pos());
                        assert(spec_comment_span(input.src(), step_start, input.pos()));
                        assert(spec_ws_covers(input.src(), input.pos(), input.pos()));
                        assert(spec_ws_covers(input.src(), step_start, input.pos()));
                        lemma_ws_covers_concat(
                            input.src(),
                            old(input).pos(),
                            step_start,
                            input.pos(),
                        );
                    }
                    matched_any = true;
                },
                Err(_) => {
                    break ;
                },
            }
        }

        if !matched_any {
            return Err(ParserResultError::NotFound);
        }
        let span = input.substring_to_current(&init_cursor);
        Ok(Whitespace { span })
    }
}

} // verus!
