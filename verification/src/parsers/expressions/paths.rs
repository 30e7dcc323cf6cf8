//! Module paths: one or more identifiers, each followed by `::`.

use vstd::prelude::*;
use vstd::string::StrSliceExecFns;

use crate::parsers::commons::identifier::{spec_identifier_end, Identifier};
use crate::parsers::chars::spec_is_identifier_head;
use crate::parsers::input::{ParserInput, ParserResult, ParserResultError, Span};

verus! {

/// Whether one `identifier ::` group starts at `p`, ending at `q`.
pub open spec fn spec_path_group(src: Seq<char>, p: int, q: int) -> bool {
    &&& 0 <= p < src.len()
    &&& spec_is_identifier_head(src[p])
    &&& q == spec_identifier_end(src, p) + 2
    &&& q <= src.len()
    &&& src[q - 2] == ':'
    &&& src[q - 1] == ':'
}

/// Whether `src[p..q]` is a run of `identifier ::` groups.
pub open spec fn spec_path_groups(src: Seq<char>, p: int, q: int) -> bool
    decreases q - p,
{
    p == q || (p < q && exists|m: int|
        p < m <= q && #[trigger] spec_path_group(src, p, m) && spec_path_groups(src, m, q))
}

/// Gluing one more group onto a run of groups gives a run of groups.
pub proof fn lemma_path_groups_append(src: Seq<char>, p: int, m: int, q: int)
    requires
        spec_path_groups(src, p, m),
        spec_path_group(src, m, q),
        p <= m < q,
    ensures
        spec_path_groups(src, p, q),
    decreases m - p,
{
    if p == m {
        assert(spec_path_groups(src, q, q));
        assert(spec_path_group(src, p, q) && spec_path_groups(src, q, q));
    } else {
        let mid = choose|mid: int|
            p < mid <= m && #[trigger] spec_path_group(src, p, mid) && spec_path_groups(
                src,
                mid,
                m,
            );
        lemma_path_groups_append(src, mid, m, q);
        assert(spec_path_group(src, p, mid) && spec_path_groups(src, mid, q));
    }
}

/// The pieces of `s` that stand before each `::`, scanning left to right
/// from `start` with the cursor at `i`; a trailing piece without its `::` is
/// not a part.
pub open spec fn spec_split_parts(s: Seq<char>, start: int, i: int) -> Seq<Seq<char>>
    decreases s.len() - i,
{
    if i < 0 || i >= s.len() {
        Seq::empty()
    } else if i + 1 < s.len() && s[i] == ':' && s[i + 1] == ':' {
        seq![s.subrange(start, i)] + spec_split_parts(s, i + 2, i + 2)
    } else {
        spec_split_parts(s, start, i + 1)
    }
}

/// A module path.
#[derive(Debug, Clone)]
pub struct ModulePath {
    pub span: Span,
}

impl ModulePath {
    // GETTERS ----------------------------------------------------------------

    pub fn span(&self) -> (r: &Span)
        ensures
            r == self.span,
    {
        &self.span
    }

    pub fn span_content(&self) -> (r: &str)
        ensures
            r@ == self.span.content@,
    {
        self.span.content.as_str()
    }

    /// The identifiers of the path: the parts before each separator.
    pub fn parts(&self) -> (r: Vec<String>)
        ensures
            r@.len() == spec_split_parts(self.span.content@, 0, 0).len(),
            forall|k: int|
                0 <= k < r@.len() ==> r@[k]@ == spec_split_parts(self.span.content@, 0, 0)[k],
    {
        let content = self.span.content.as_str();
        let ghost s = content@;
        let n = content.unicode_len();
        let mut parts: Vec<String> = Vec::new();
        let mut start: usize = 0;
        let mut i: usize = 0;
        while i < n
            invariant
                start <= i <= n == s.len(),
                s == content@,
                spec_split_parts(s, 0, 0) == parts@.map_values(|v: String| v@)
                    + spec_split_parts(s, start as int, i as int),
            decreases n - i,
        {
            if i + 1 < n && content.get_char(i) == ':' && content.get_char(i + 1) == ':' {
                let piece = content.substring_char(start, i).to_owned();
                proof {
                    assert(parts@.push(piece).map_values(|v: String| v@) =~= parts@.map_values(
                        |v: String| v@,
                    ).push(piece@));
                    assert(parts@.map_values(|v: String| v@).push(s.subrange(start as int, i as int))
                        + spec_split_parts(s, i + 2, i + 2) =~= parts@.map_values(|v: String| v@) + (
                    seq![s.subrange(start as int, i as int)] + spec_split_parts(s, i + 2, i + 2)));
                }
                parts.push(piece);
                i = i + 2;
                start = i;
            } else {
                i = i + 1;
            }
        }
        proof {
            assert(spec_split_parts(s, 0, 0) =~= parts@.map_values(|v: String| v@));
        }
        parts
    }

    // STATIC METHODS ---------------------------------------------------------

    /// Parses a module path: one or more `identifier ::` groups, as many as
    /// there are. A trailing identifier without its `::` is left where it
    /// stands.
    pub fn parse(input: &mut ParserInput) -> (r: ParserResult<ModulePath>)
        requires
            old(input).wf(),
        ensures
            final(input).wf(),
            final(input).content == old(input).content,
            final(input).context == old(input).context,
            r is Ok <==> exists|m: int|
                spec_path_group(old(input).src(), old(input).pos(), m),
            r is Ok ==> {
                let node = r->Ok_0;
                &&& node.span.wf(old(input).src())
                &&& node.span.start == old(input).cursor
                &&& node.span.end == final(input).cursor
                &&& old(input).pos() < final(input).pos()
                &&& spec_path_groups(old(input).src(), old(input).pos(), final(input).pos())
                &&& !(exists|m: int|
                    spec_path_group(old(input).src(), final(input).pos(), m))
            },
            r is Err ==> r->Err_0 is NotFound && *final(input) == *old(input),
    {
        let init_cursor = input.save_cursor();
        let mut count: usize = 0;

        loop
            invariant
                input.wf(),
                input.content == old(input).content,
                input.context == old(input).context,
                init_cursor == old(input).cursor,
                old(input).pos() <= input.pos(),
                count <= input.pos() - old(input).pos(),
                count > 0 <==> old(input).pos() < input.pos(),
                count > 0 ==> exists|m: int|
                    spec_path_group(old(input).src(), old(input).pos(), m),
                spec_path_groups(old(input).src(), old(input).pos(), input.pos()),
            ensures
                input.wf(),
                input.content == old(input).content,
                input.context == old(input).context,
                old(input).pos() <= input.pos(),
                count > 0 <==> old(input).pos() < input.pos(),
                count > 0 ==> exists|m: int|
                    spec_path_group(old(input).src(), old(input).pos(), m),
                count == 0 ==> !exists|m: int|
                    spec_path_group(old(input).src(), old(input).pos(), m),
                spec_path_groups(old(input).src(), old(input).pos(), input.pos()),
                !exists|m: int| spec_path_group(input.src(), input.pos(), m),
            decreases input.src().len() - input.pos(),
        {
            let ghost group_start = input.pos();
            let ghost src = input.src();
            let round_cursor = input.save_cursor();
            match Identifier::parse(input) {
                Ok(_) => {},
                Err(_) => {
                    proof {
                        assert(forall|m: int| !spec_path_group(src, group_start, m));
                    }
                    break ;
                },
            }
            let first = match input.peek() {
                Some(c) => c == ':',
                None => false,
            };
            if !first {
                input.restore(round_cursor);
                proof {
                    assert(forall|m: int| !spec_path_group(src, group_start, m));
                }
                break ;
            }
            input.advance();
            let second = match input.peek() {
                Some(c) => c == ':',
                None => false,
            };
            if !second {
                input.restore(round_cursor);
                proof {
                    assert(forall|m: int| !spec_path_group(src, group_start, m));
                }
                break ;
            }
            input.advance();
            proof {
                assert(spec_path_group(src, group_start, input.pos()));
                lemma_path_groups_append(src, old(input).pos(), group_start, input.pos());
            }
            count = count + 1;
        }

        if count == 0 {
            return Err(ParserResultError::NotFound);
        }
        let span = input.substring_to_current(&init_cursor);
        Ok(ModulePath { span })
    }
}

} // verus!
