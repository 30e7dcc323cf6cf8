//! The parser input: a cursor over the source text carrying a mutable
//! context, and the spans the grammar nodes keep of what they consumed.

use vstd::prelude::*;
use vstd::string::StrSliceExecFns;
use vstd::utf8::{encode_scalar, encode_utf8};

use crate::parsers::chars::{
    char_utf8_len, lemma_byte_offset_bound, lemma_byte_offset_step, spec_is_line_break,
};
use crate::parsers::diagnostics::{ParserError, ParserWarning};

verus! {

broadcast use vstd::slice::axiom_spec_len;

/// The byte offset of the character at char offset `n`: the UTF-8 length of
/// the prefix before it.
pub open spec fn spec_byte_offset(src: Seq<char>, n: int) -> int {
    encode_utf8(src.take(n)).len() as int
}

/// The 1-based line of the character at char offset `n`: every line break
/// before it starts a new line.
pub open spec fn spec_line(src: Seq<char>, n: int) -> int
    decreases n,
{
    if n <= 0 {
        1
    } else {
        spec_line(src, n - 1) + if spec_is_line_break(src[n - 1]) {
            1int
        } else {
            0int
        }
    }
}

/// The 1-based column of the character at char offset `n`: it resets after
/// every line break.
pub open spec fn spec_column(src: Seq<char>, n: int) -> int
    decreases n,
{
    if n <= 0 {
        1
    } else if spec_is_line_break(src[n - 1]) {
        1
    } else {
        spec_column(src, n - 1) + 1
    }
}

/// Lines and columns stay within one past the char offset.
pub proof fn lemma_line_column_bounds(src: Seq<char>, n: int)
    requires
        0 <= n,
    ensures
        1 <= spec_line(src, n) <= n + 1,
        1 <= spec_column(src, n) <= n + 1,
    decreases n,
{
    if n > 0 {
        lemma_line_column_bounds(src, n - 1);
    }
}

/// A point in the source buffer: a byte offset, a char offset, and the
/// 1-based line and column.
#[derive(Debug, Clone, Copy)]
pub struct Cursor {
    pub byte_offset: usize,
    pub char_offset: usize,
    pub line: usize,
    pub column: usize,
}

impl Cursor {
    /// A cursor is well formed for a source when all four coordinates
    /// describe the same char offset of it.
    pub open spec fn wf(&self, src: Seq<char>) -> bool {
        &&& self.char_offset <= src.len()
        &&& self.byte_offset == spec_byte_offset(src, self.char_offset as int)
        &&& self.line == spec_line(src, self.char_offset as int)
        &&& self.column == spec_column(src, self.char_offset as int)
    }

    pub fn byte_offset(&self) -> (r: usize)
        ensures
            r == self.byte_offset,
    {
        self.byte_offset
    }

    pub fn char_offset(&self) -> (r: usize)
        ensures
            r == self.char_offset,
    {
        self.char_offset
    }

    pub fn line(&self) -> (r: usize)
        ensures
            r == self.line,
    {
        self.line
    }

    pub fn column(&self) -> (r: usize)
        ensures
            r == self.column,
    {
        self.column
    }
}

/// A contiguous region of the source buffer: its two end cursors and a copy
/// of the text between them.
#[derive(Debug, Clone)]
pub struct Span {
    pub start: Cursor,
    pub end: Cursor,
    pub content: String,
}

impl Span {
    /// A span is well formed for a source when both cursors are, they are
    /// ordered, and the content is the text between them.
    pub open spec fn wf(&self, src: Seq<char>) -> bool {
        &&& self.start.wf(src)
        &&& self.end.wf(src)
        &&& self.start.char_offset <= self.end.char_offset
        &&& self.content@ == src.subrange(self.start.char_offset as int, self.end.char_offset as int)
    }

    pub fn start_cursor(&self) -> (r: &Cursor)
        ensures
            r == self.start,
    {
        &self.start
    }

    pub fn end_cursor(&self) -> (r: &Cursor)
        ensures
            r == self.end,
    {
        &self.end
    }

    /// The text the span covers.
    pub fn content(&self) -> (r: &str)
        ensures
            r@ == self.content@,
    {
        self.content.as_str()
    }
}

/// The configuration to ignore some types of warnings.
#[derive(Debug, Clone, PartialEq, Eq, Structural)]
pub struct ParserIgnoreConfig {
    pub number_leading_zeroes: bool,
    pub number_trailing_zeroes: bool,
}

impl ParserIgnoreConfig {
    /// Builds a configuration that keeps every warning.
    pub fn new() -> (r: ParserIgnoreConfig)
        ensures
            r.number_leading_zeroes == false,
            r.number_trailing_zeroes == false,
    {
        ParserIgnoreConfig { number_leading_zeroes: false, number_trailing_zeroes: false }
    }
}

impl Default for ParserIgnoreConfig {
    /// The default configuration keeps every warning.
    fn default() -> (r: ParserIgnoreConfig)
        ensures
            r.number_leading_zeroes == false,
            r.number_trailing_zeroes == false,
    {
        ParserIgnoreConfig::new()
    }
}

/// The context object that carries all information of a parse session: the
/// file path for diagnostics, the warnings found so far, and which warnings
/// to ignore.
#[derive(Debug)]
pub struct ParserContext {
    pub file_path: Option<String>,
    pub warnings: Vec<ParserWarning>,
    pub ignore: ParserIgnoreConfig,
}

impl ParserContext {
    /// Builds a context with no warnings yet.
    pub fn new(file_path: Option<String>, ignore: ParserIgnoreConfig) -> (r: ParserContext)
        ensures
            r.file_path == file_path,
            r.warnings@.len() == 0,
            r.ignore == ignore,
    {
        ParserContext { file_path, warnings: Vec::new(), ignore }
    }

    pub fn file_path(&self) -> (r: &Option<String>)
        ensures
            r == self.file_path,
    {
        &self.file_path
    }

    pub fn warnings(&self) -> (r: &Vec<ParserWarning>)
        ensures
            r == self.warnings,
    {
        &self.warnings
    }

    pub fn ignore(&self) -> (r: &ParserIgnoreConfig)
        ensures
            r == self.ignore,
    {
        &self.ignore
    }

    /// Appends one warning.
    pub fn add_warning(&mut self, warning: ParserWarning)
        ensures
            final(self).warnings@ == old(self).warnings@.push(warning),
            final(self).file_path == old(self).file_path,
            final(self).ignore == old(self).ignore,
    {
        self.warnings.push(warning);
    }
}

impl Default for ParserContext {
    /// A context without a file path that keeps every warning.
    fn default() -> (r: ParserContext)
        ensures
            r.file_path is None,
            r.warnings@.len() == 0,
            r.ignore.number_leading_zeroes == false,
            r.ignore.number_trailing_zeroes == false,
    {
        ParserContext::new(None, ParserIgnoreConfig::new())
    }
}

/// How a parse of one node can fail: the alternative did not apply and the
/// position was restored, or a committed error that no alternative may
/// swallow.
#[derive(Debug)]
pub enum ParserResultError {
    NotFound,
    Error(Cursor, ParserError),
}

impl ParserResultError {
    pub fn is_not_found(&self) -> (r: bool)
        ensures
            r == (self is NotFound),
    {
        matches!(self, ParserResultError::NotFound)
    }

    pub fn is_error(&self) -> (r: bool)
        ensures
            r == (self is Error),
    {
        matches!(self, ParserResultError::Error(_, _))
    }

    /// Returns the cursor and the error of a committed failure.
    pub fn unwrap_error(self) -> (r: (Cursor, ParserError))
        requires
            self is Error,
        ensures
            self == ParserResultError::Error(r.0, r.1),
    {
        match self {
            ParserResultError::Error(cursor, error) => (cursor, error),
            ParserResultError::NotFound => (
                Cursor { byte_offset: 0, char_offset: 0, line: 1, column: 1 },
                ParserError {
                    kind: crate::parsers::diagnostics::ParserErrorKind::ModuleUnrecognizedEOF,
                    log: crate::parsers::diagnostics::Diagnostic {
                        title: String::new(),
                        notes: Vec::new(),
                        highlights: Vec::new(),
                    },
                },
            ),
        }
    }
}

/// What a parse of one node returns.
pub type ParserResult<T> = Result<T, ParserResultError>;

/// A cursor over a source text, carrying the parse context.
pub struct ParserInput<'a> {
    pub content: &'a str,
    pub cursor: Cursor,
    pub context: ParserContext,
}

impl<'a> ParserInput<'a> {
    /// The input is well formed when its cursor describes a char offset of
    /// the source and the source is small enough to count positions in a
    /// `usize`.
    pub open spec fn wf(&self) -> bool {
        &&& self.cursor.wf(self.content@)
        &&& self.content@.len() < usize::MAX
    }

    /// The source seen by this input.
    pub open spec fn src(&self) -> Seq<char> {
        self.content@
    }

    /// The char offset the input stands at.
    pub open spec fn pos(&self) -> int {
        self.cursor.char_offset as int
    }

    /// Builds an input at the start of `content`.
    pub fn new_with_context_and_error(content: &'a str, context: ParserContext) -> (r: ParserInput<
        'a,
    >)
        requires
            content@.len() < usize::MAX,
        ensures
            r.wf(),
            r.content@ == content@,
            r.pos() == 0,
            r.context == context,
    {
        proof {
            assert(content@.take(0) =~= Seq::<char>::empty());
        }
        ParserInput {
            content,
            cursor: Cursor { byte_offset: 0, char_offset: 0, line: 1, column: 1 },
            context,
        }
    }

    pub fn content(&self) -> (r: &'a str)
        ensures
            r == self.content,
    {
        self.content
    }

    pub fn context(&self) -> (r: &ParserContext)
        ensures
            r == self.context,
    {
        &self.context
    }

    pub fn context_mut(&mut self) -> (r: &mut ParserContext)
        ensures
            *r == old(self).context,
            *final(self) == (ParserInput { context: *final(r), ..*old(self) }),
    {
        &mut self.context
    }

    pub fn byte_offset(&self) -> (r: usize)
        ensures
            r == self.cursor.byte_offset,
    {
        self.cursor.byte_offset
    }

    /// A copy of the current cursor, to restore the position later.
    pub fn save_cursor(&self) -> (r: Cursor)
        ensures
            r == self.cursor,
    {
        self.cursor
    }

    /// Moves the input back (or forward) to a saved cursor.
    pub fn restore(&mut self, cursor: Cursor)
        ensures
            *final(self) == (ParserInput { cursor, ..*old(self) }),
    {
        self.cursor = cursor;
    }

    /// Whether the whole source has been consumed.
    pub fn is_eof(&self) -> (r: bool)
        requires
            self.wf(),
        ensures
            r == (self.pos() == self.src().len()),
    {
        self.cursor.char_offset == self.content.unicode_len()
    }

    /// The character at the current position, if any.
    pub fn peek(&self) -> (r: Option<char>)
        requires
            self.wf(),
        ensures
            r is Some <==> self.pos() < self.src().len(),
            r is Some ==> r->0 == self.src()[self.pos()],
    {
        if self.cursor.char_offset < self.content.unicode_len() {
            Some(self.content.get_char(self.cursor.char_offset))
        } else {
            None
        }
    }

    /// Moves one character forward, keeping the byte offset and the line and
    /// column in step.
    pub fn advance(&mut self)
        requires
            old(self).wf(),
            old(self).pos() < old(self).src().len(),
        ensures
            final(self).wf(),
            final(self).content == old(self).content,
            final(self).context == old(self).context,
            final(self).pos() == old(self).pos() + 1,
    {
        let n = self.cursor.char_offset;
        let c = self.content.get_char(n);
        let w = char_utf8_len(c);
        // The byte length of the source bounds every byte offset within it.
        let _total_bytes = self.content.as_bytes().len();
        proof {
            lemma_byte_offset_step(self.content@, n as int);
            lemma_byte_offset_bound(self.content@, n as int + 1);
            lemma_line_column_bounds(self.content@, n as int + 1);
        }
        self.cursor.byte_offset = self.cursor.byte_offset + w;
        if crate::parsers::chars::is_line_break_char(c) {
            self.cursor.line = self.cursor.line + 1;
            self.cursor.column = 1;
        } else {
            self.cursor.column = self.cursor.column + 1;
        }
        self.cursor.char_offset = n + 1;
    }

    /// The span from a saved cursor to the current position.
    pub fn substring_to_current(&self, init: &Cursor) -> (r: Span)
        requires
            self.wf(),
            init.wf(self.src()),
            init.char_offset <= self.pos(),
        ensures
            r.wf(self.src()),
            r.start == init,
            r.end == self.cursor,
    {
        let text = self.content.substring_char(init.char_offset, self.cursor.char_offset);
        Span { start: *init, end: self.cursor, content: text.to_owned() }
    }
}

} // verus!
