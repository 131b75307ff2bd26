//! Strings as bytes: slicing at character boundaries, comparison, and the
//! facts about UTF-8 that the lexer and the tree need.

use vstd::prelude::*;
use vstd::string::*;
use vstd::utf8::*;

verus! {

/// Behind an ASCII byte a character starts, or the text ends.
pub proof fn lemma_ascii_step(bytes: Seq<u8>, i: int)
    requires
        valid_utf8(bytes),
        0 <= i < bytes.len(),
        bytes[i] < 0x80,
    ensures
        is_char_boundary(bytes, i + 1),
    decreases bytes.len(),
{
    let first = length_of_first_scalar(bytes);
    let rest = pop_first_scalar(bytes);
    assert(valid_first_scalar(bytes));
    assert(valid_utf8(rest));
    if i < first {
        assert(i == 0);
        assert(first == 1);
        assert(is_char_boundary(rest, 0));
        assert(is_char_boundary(bytes, 1));
    } else {
        assert(rest[i - first] == bytes[i]);
        lemma_ascii_step(rest, i - first);
        assert(is_char_boundary(bytes, i + 1));
    }
}

/// A position is a character boundary if it is an end of the text, if the
/// byte at it is no continuation byte, or if the byte before it is ASCII.
pub proof fn lemma_boundary(bytes: Seq<u8>, e: int)
    requires
        valid_utf8(bytes),
        0 <= e <= bytes.len(),
        e == 0 || e == bytes.len() || !is_continuation_byte(bytes[e]) || bytes[e - 1] < 0x80,
    ensures
        is_char_boundary(bytes, e),
{
    if e == 0 || e == bytes.len() {
        is_char_boundary_start_end_of_seq(bytes);
    } else if !is_continuation_byte(bytes[e]) {
        is_char_boundary_iff_not_is_continuation_byte(bytes, e);
    } else {
        lemma_ascii_step(bytes, e - 1);
    }
}

/// A boundary of a text is a boundary of each prefix that reaches it and
/// ends at a boundary.
pub proof fn lemma_prefix_boundary(bytes: Seq<u8>, i: int, j: int)
    requires
        valid_utf8(bytes),
        0 <= i <= j <= bytes.len(),
        is_char_boundary(bytes, i),
        is_char_boundary(bytes, j),
    ensures
        valid_utf8(bytes.subrange(0, j)),
        is_char_boundary(bytes.subrange(0, j), i),
{
    valid_utf8_split(bytes, j);
    let prefix = bytes.subrange(0, j);
    if i < j {
        assert(prefix[i] == bytes[i]);
        is_char_boundary_iff_not_is_continuation_byte(bytes, i);
        is_char_boundary_iff_not_is_continuation_byte(prefix, i);
    } else {
        is_char_boundary_start_end_of_seq(prefix);
    }
}

/// Decoding up to a boundary `j` is decoding up to an earlier boundary `i`
/// and then from `i` to `j`.
pub proof fn lemma_decode_append(bytes: Seq<u8>, i: int, j: int)
    requires
        valid_utf8(bytes),
        0 <= i <= j <= bytes.len(),
        is_char_boundary(bytes, i),
        is_char_boundary(bytes, j),
    ensures
        decode_utf8(bytes.subrange(0, j)) == decode_utf8(bytes.subrange(0, i)) + decode_utf8(
            bytes.subrange(i, j),
        ),
{
    lemma_prefix_boundary(bytes, i, j);
    let prefix = bytes.subrange(0, j);
    decode_utf8_split(prefix, i);
    assert(prefix.subrange(0, i) =~= bytes.subrange(0, i));
    assert(prefix.subrange(i, prefix.len() as int) =~= bytes.subrange(i, j));
}

/// Two texts with the same bytes are the same text.
pub proof fn lemma_encode_injective(a: Seq<char>, b: Seq<char>)
    requires
        encode_utf8(a) == encode_utf8(b),
    ensures
        a == b,
{
    encode_utf8_decode_utf8(a);
    encode_utf8_decode_utf8(b);
}

/// The encoding of two texts, one behind the other, is their encodings one
/// behind the other.
pub proof fn lemma_encode_concat(a: Seq<char>, b: Seq<char>)
    ensures
        encode_utf8(a + b) == encode_utf8(a) + encode_utf8(b),
    decreases a.len(),
{
    if a.len() == 0 {
        assert(a + b =~= b);
        assert(encode_utf8(a) + encode_utf8(b) =~= encode_utf8(b));
    } else {
        lemma_encode_concat(a.drop_first(), b);
        assert((a + b).drop_first() =~= a.drop_first() + b);
        assert((a + b)[0] == a[0]);
        assert(encode_utf8(a + b) =~= encode_utf8(a) + encode_utf8(b));
    }
}

/// The part of `source` between two character boundaries.
pub fn slice_str<'a>(source: &'a str, start: usize, end: usize) -> (piece: &'a str)
    requires
        start <= end <= source.spec_bytes().len(),
        is_char_boundary(source.spec_bytes(), start as int),
        is_char_boundary(source.spec_bytes(), end as int),
    ensures
        piece.spec_bytes() == source.spec_bytes().subrange(start as int, end as int),
        piece@ == decode_utf8(source.spec_bytes().subrange(start as int, end as int)),
{
    broadcast use encode_utf8_valid_utf8;

    let ghost bytes = source.spec_bytes();
    let (head, _) = source.split_at(end);
    proof {
        lemma_prefix_boundary(bytes, start as int, end as int);
    }
    let (_, piece) = head.split_at(start);
    proof {
        assert(piece.spec_bytes() =~= bytes.subrange(start as int, end as int));
        encode_utf8_decode_utf8(piece@);
    }
    piece
}

/// Whether two strings hold the same text.
pub fn str_eq(a: &str, b: &str) -> (r: bool)
    ensures
        r == (a@ == b@),
{
    let x = a.as_bytes();
    let y = b.as_bytes();
    if x.len() != y.len() {
        return false;
    }
    let mut i: usize = 0;
    while i < x.len()
        invariant
            x@.len() == y@.len(),
            i <= x@.len(),
            x@ == a.spec_bytes(),
            y@ == b.spec_bytes(),
            forall|k: int| 0 <= k < i ==> x@[k] == y@[k],
        decreases x@.len() - i,
    {
        if x[i] != y[i] {
            return false;
        }
        i += 1;
    }
    proof {
        assert(x@ =~= y@);
        lemma_encode_injective(a@, b@);
    }
    true
}

/// The characters that Unicode counts as white space.
pub open spec fn is_white_space(c: char) -> bool {
    ('\u{9}' <= c <= '\u{d}') || c == ' ' || c == '\u{85}' || c == '\u{a0}' || c == '\u{1680}' || (
    '\u{2000}' <= c <= '\u{200a}') || c == '\u{2028}' || c == '\u{2029}' || c == '\u{202f}' || c
        == '\u{205f}' || c == '\u{3000}'
}

/// `text` without the white space at its front.
pub open spec fn without_front(text: Seq<char>) -> Seq<char>
    decreases text.len(),
{
    if text.len() > 0 && is_white_space(text[0]) {
        without_front(text.drop_first())
    } else {
        text
    }
}

/// `text` without the white space at its back.
pub open spec fn without_back(text: Seq<char>) -> Seq<char>
    decreases text.len(),
{
    if text.len() > 0 && is_white_space(text.last()) {
        without_back(text.drop_last())
    } else {
        text
    }
}

/// `text` without the white space at its ends.
pub open spec fn trimmed(text: Seq<char>) -> Seq<char> {
    without_back(without_front(text))
}

/// `str::trim`: the text without leading and trailing white space, where
/// white space is what Unicode's `White_Space` property says.
#[verifier::external_body]
pub(crate) fn trim(text: &str) -> (r: &str)
    ensures
        r@ == trimmed(text@),
{
    text.trim()
}

} // verus!
