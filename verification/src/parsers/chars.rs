//! Character classes of the Sand language: white space, line breaks,
//! identifier heads and bodies, decimal digits, and the UTF-8 width of a
//! character.

use vstd::prelude::*;
use vstd::utf8::{encode_scalar, encode_utf8};

verus! {

/// Unicode white space (the `White_Space` property).
pub open spec fn spec_is_whitespace(c: char) -> bool {
    let u = c as u32;
    ||| (0x9 <= u && u <= 0xD)
    ||| u == 0x20
    ||| u == 0x85
    ||| u == 0xA0
    ||| u == 0x1680
    ||| (0x2000 <= u && u <= 0x200A)
    ||| (0x2028 <= u && u <= 0x2029)
    ||| u == 0x202F
    ||| u == 0x205F
    ||| u == 0x3000
}

/// Whether `c` is Unicode white space.
pub fn is_whitespace_char(c: char) -> (r: bool)
    ensures
        r == spec_is_whitespace(c),
{
    let u = c as u32;
    (0x9 <= u && u <= 0xD) || u == 0x20 || u == 0x85 || u == 0xA0 || u == 0x1680 || (0x2000 <= u
        && u <= 0x200A) || (0x2028 <= u && u <= 0x2029) || u == 0x202F || u == 0x205F || u == 0x3000
}

/// Line-breaking white space: what ends a single-line comment and starts a
/// new source line.
pub open spec fn spec_is_line_break(c: char) -> bool {
    let u = c as u32;
    ||| (0xA <= u && u <= 0xD)
    ||| u == 0x85
    ||| (0x2028 <= u && u <= 0x2029)
}

/// Whether `c` breaks the line.
pub fn is_line_break_char(c: char) -> (r: bool)
    ensures
        r == spec_is_line_break(c),
{
    let u = c as u32;
    (0xA <= u && u <= 0xD) || u == 0x85 || (0x2028 <= u && u <= 0x2029)
}

/// Characters an identifier may start with. The classification follows
/// Swift's identifier-head set.
pub open spec fn spec_is_identifier_head(c: char) -> bool {
    let u = c as u32;
    ||| (0x41 <= u && u <= 0x5A)
    ||| u == 0x5F
    ||| (0x61 <= u && u <= 0x7A)
    ||| u == 0xA8
    ||| u == 0xAA
    ||| u == 0xAD
    ||| u == 0xAF
    ||| (0xB2 <= u && u <= 0xB5)
    ||| (0xB7 <= u && u <= 0xBA)
    ||| (0xBC <= u && u <= 0xBE)
    ||| (0xC0 <= u && u <= 0xD6)
    ||| (0xD8 <= u && u <= 0xF6)
    ||| (0xF8 <= u && u <= 0x2FF)
    ||| (0x370 <= u && u <= 0x167F)
    ||| (0x1681 <= u && u <= 0x180D)
    ||| (0x180F <= u && u <= 0x1DBF)
    ||| (0x1E00 <= u && u <= 0x1FFF)
    ||| (0x200B <= u && u <= 0x200D)
    ||| (0x202A <= u && u <= 0x202E)
    ||| (0x203F <= u && u <= 0x2040)
    ||| u == 0x2054
    ||| (0x2060 <= u && u <= 0x20CF)
    ||| (0x2100 <= u && u <= 0x218F)
    ||| (0x2460 <= u && u <= 0x24FF)
    ||| (0x2776 <= u && u <= 0x2793)
    ||| (0x2C00 <= u && u <= 0x2DFF)
    ||| (0x2E80 <= u && u <= 0x2FFF)
    ||| (0x3004 <= u && u <= 0x3007)
    ||| (0x3021 <= u && u <= 0x302F)
    ||| (0x3031 <= u && u <= 0xD7FF)
    ||| (0xF900 <= u && u <= 0xFD3D)
    ||| (0xFD40 <= u && u <= 0xFDCF)
    ||| (0xFDF0 <= u && u <= 0xFE1F)
    ||| (0xFE30 <= u && u <= 0xFE44)
    ||| (0xFE47 <= u && u <= 0xFFFD)
    ||| (0x10000 <= u && u <= 0x1FFFD)
    ||| (0x20000 <= u && u <= 0x2FFFD)
    ||| (0x30000 <= u && u <= 0x3FFFD)
    ||| (0x40000 <= u && u <= 0x4FFFD)
    ||| (0x50000 <= u && u <= 0x5FFFD)
    ||| (0x60000 <= u && u <= 0x6FFFD)
    ||| (0x70000 <= u && u <= 0x7FFFD)
    ||| (0x80000 <= u && u <= 0x8FFFD)
    ||| (0x90000 <= u && u <= 0x9FFFD)
    ||| (0xA0000 <= u && u <= 0xAFFFD)
    ||| (0xB0000 <= u && u <= 0xBFFFD)
    ||| (0xC0000 <= u && u <= 0xCFFFD)
    ||| (0xD0000 <= u && u <= 0xDFFFD)
    ||| (0xE0000 <= u && u <= 0xEFFFD)
}

/// Whether `c` may start an identifier.
pub fn is_identifier_head_char(c: char) -> (r: bool)
    ensures
        r == spec_is_identifier_head(c),
{
    let u = c as u32;
    (0x41 <= u && u <= 0x5A) || u == 0x5F || (0x61 <= u && u <= 0x7A) || u == 0xA8 || u == 0xAA || u == 0xAD || u == 0xAF || (0xB2 <= u && u <= 0xB5) || (0xB7 <= u && u <= 0xBA) || (0xBC <= u && u <= 0xBE)
        || (0xC0 <= u && u <= 0xD6)
        || (0xD8 <= u && u <= 0xF6)
        || (0xF8 <= u && u <= 0x2FF)
        || (0x370 <= u && u <= 0x167F)
        || (0x1681 <= u && u <= 0x180D)
        || (0x180F <= u && u <= 0x1DBF)
        || (0x1E00 <= u && u <= 0x1FFF)
        || (0x200B <= u && u <= 0x200D)
        || (0x202A <= u && u <= 0x202E)
        || (0x203F <= u && u <= 0x2040)
        || u == 0x2054
        || (0x2060 <= u && u <= 0x20CF)
        || (0x2100 <= u && u <= 0x218F)
        || (0x2460 <= u && u <= 0x24FF)
        || (0x2776 <= u && u <= 0x2793)
        || (0x2C00 <= u && u <= 0x2DFF)
        || (0x2E80 <= u && u <= 0x2FFF)
        || (0x3004 <= u && u <= 0x3007)
        || (0x3021 <= u && u <= 0x302F)
        || (0x3031 <= u && u <= 0xD7FF)
        || (0xF900 <= u && u <= 0xFD3D)
        || (0xFD40 <= u && u <= 0xFDCF)
        || (0xFDF0 <= u && u <= 0xFE1F)
        || (0xFE30 <= u && u <= 0xFE44)
        || (0xFE47 <= u && u <= 0xFFFD)
        || (0x10000 <= u && u <= 0x1FFFD)
        || (0x20000 <= u && u <= 0x2FFFD)
        || (0x30000 <= u && u <= 0x3FFFD)
        || (0x40000 <= u && u <= 0x4FFFD)
        || (0x50000 <= u && u <= 0x5FFFD)
        || (0x60000 <= u && u <= 0x6FFFD)
        || (0x70000 <= u && u <= 0x7FFFD)
        || (0x80000 <= u && u <= 0x8FFFD)
        || (0x90000 <= u && u <= 0x9FFFD)
        || (0xA0000 <= u && u <= 0xAFFFD)
        || (0xB0000 <= u && u <= 0xBFFFD)
        || (0xC0000 <= u && u <= 0xCFFFD)
        || (0xD0000 <= u && u <= 0xDFFFD)
        || (0xE0000 <= u && u <= 0xEFFFD)
}

/// Characters an identifier may continue with beyond the head set: ASCII
/// digits and combining marks. The classification follows Swift's
/// identifier-body additions.
pub open spec fn spec_is_identifier_body_extra(c: char) -> bool {
    let u = c as u32;
    ||| (0x30 <= u && u <= 0x39)
    ||| (0x300 <= u && u <= 0x36F)
    ||| (0x1DC0 <= u && u <= 0x1DFF)
    ||| (0x20D0 <= u && u <= 0x20FF)
    ||| (0xFE20 <= u && u <= 0xFE2F)
}

/// Whether `c` may continue an identifier without being a head character.
pub fn is_identifier_body_extra_char(c: char) -> (r: bool)
    ensures
        r == spec_is_identifier_body_extra(c),
{
    let u = c as u32;
    (0x30 <= u && u <= 0x39) || (0x300 <= u && u <= 0x36F) || (0x1DC0 <= u && u <= 0x1DFF) || (
    0x20D0 <= u && u <= 0x20FF) || (0xFE20 <= u && u <= 0xFE2F)
}

/// Whether `c` may continue an identifier.
pub open spec fn spec_is_identifier_body(c: char) -> bool {
    spec_is_identifier_head(c) || spec_is_identifier_body_extra(c)
}

/// Whether `c` may continue an identifier.
pub fn is_identifier_body_char(c: char) -> (r: bool)
    ensures
        r == spec_is_identifier_body(c),
{
    is_identifier_head_char(c) || is_identifier_body_extra_char(c)
}

/// Decimal digits.
pub open spec fn spec_is_digit(c: char) -> bool {
    '0' <= c && c <= '9'
}

/// Whether `c` is a decimal digit.
pub fn is_digit_char(c: char) -> (r: bool)
    ensures
        r == spec_is_digit(c),
{
    '0' <= c && c <= '9'
}

/// The number of bytes of the UTF-8 encoding of one character.
pub fn char_utf8_len(c: char) -> (r: usize)
    ensures
        r == encode_scalar(c as u32).len(),
        1 <= r <= 4,
{
    let u = c as u32;
    if u <= 0x7F {
        1
    } else if u <= 0x7FF {
        2
    } else if u <= 0xFFFF {
        3
    } else {
        4
    }
}

/// Every character takes at least one UTF-8 byte.
pub proof fn lemma_encode_scalar_len(u: u32)
    ensures
        1 <= encode_scalar(u).len() <= 4,
{
}

/// UTF-8 encoding distributes over concatenation.
pub proof fn lemma_encode_utf8_concat(a: Seq<char>, b: Seq<char>)
    ensures
        encode_utf8(a + b) =~= encode_utf8(a) + encode_utf8(b),
    decreases a.len(),
{
    if a.len() == 0 {
        assert(a + b =~= b);
        assert(encode_utf8(a) =~= Seq::<u8>::empty());
    } else {
        assert((a + b).drop_first() =~= a.drop_first() + b);
        lemma_encode_utf8_concat(a.drop_first(), b);
        assert((a + b)[0] == a[0]);
    }
}

/// Extending a prefix by one character adds that character's bytes.
pub proof fn lemma_byte_offset_step(src: Seq<char>, n: int)
    requires
        0 <= n < src.len(),
    ensures
        encode_utf8(src.take(n + 1)).len() == encode_utf8(src.take(n)).len() + encode_scalar(
            src[n] as u32,
        ).len(),
{
    assert(src.take(n + 1) =~= src.take(n) + seq![src[n]]);
    lemma_encode_utf8_concat(src.take(n), seq![src[n]]);
    assert(encode_utf8(seq![src[n]]) =~= encode_scalar(src[n] as u32) + encode_utf8(
        Seq::<char>::empty(),
    )) by {
        assert(seq![src[n]].drop_first() =~= Seq::<char>::empty());
    }
    assert(encode_utf8(seq![src[n]]) =~= encode_scalar(src[n] as u32));
}

/// A prefix never takes more bytes than the whole sequence.
pub proof fn lemma_byte_offset_bound(src: Seq<char>, n: int)
    requires
        0 <= n <= src.len(),
    ensures
        encode_utf8(src.take(n)).len() <= encode_utf8(src).len(),
{
    assert(src =~= src.take(n) + src.skip(n));
    lemma_encode_utf8_concat(src.take(n), src.skip(n));
}

} // verus!
