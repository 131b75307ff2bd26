//! The lexer: source text to a flat sequence of tokens that covers every byte.
//!
//! The rules are stated once, as spec functions on the UTF-8 bytes of the
//! source ([`token_at`] and what it calls), and the executable scanner is
//! proved to follow them byte for byte.

use crate::syntax::SyntaxKind;
use crate::text::{lemma_boundary, lemma_decode_append, slice_str, str_eq};
use std::ops::Range;
use vstd::prelude::*;
use vstd::string::*;
use vstd::utf8::*;

verus! {

/// A token: its kind, its text, and the byte range of the source it covers.
#[derive(Debug, PartialEq, Eq)]
pub struct Token {
    pub kind: SyntaxKind,
    pub text: String,
    pub span: Range<usize>,
}

impl Clone for Token {
    fn clone(&self) -> (copy: Self)
        ensures
            copy == *self,
    {
        Token { kind: self.kind, text: self.text.clone(), span: self.span.start..self.span.end }
    }
}

/// The ASCII bytes that the rules name.
pub const SPACE: u8 = 32;

pub const TAB: u8 = 9;

pub const CR: u8 = 13;

pub const LF: u8 = 10;

pub const DIGIT_0: u8 = 48;

pub const DIGIT_9: u8 = 57;

pub const LOWER_A: u8 = 97;

pub const LOWER_B: u8 = 98;

pub const LOWER_Z: u8 = 122;

pub const UPPER_A: u8 = 65;

pub const UPPER_Z: u8 = 90;

pub const UNDERSCORE: u8 = 95;

pub const QUOTE: u8 = 34;

pub const BACKSLASH: u8 = 92;

pub const STAR: u8 = 42;

pub const SLASH: u8 = 47;

pub const EQUALS: u8 = 61;

pub const LPAREN: u8 = 40;

pub const RPAREN: u8 = 41;

pub const LBRACE: u8 = 123;

pub const RBRACE: u8 = 125;

pub const LBRACKET: u8 = 91;

pub const RBRACKET: u8 = 93;

pub const COMMA: u8 = 44;

pub const SEMICOLON: u8 = 59;

pub const TILDE: u8 = 126;

pub const COLON: u8 = 58;

pub const DOT: u8 = 46;

pub const MINUS: u8 = 45;

pub const GREATER: u8 = 62;

pub const QUESTION: u8 = 63;

pub const BANG: u8 = 33;

pub const PLUS: u8 = 43;

pub const PERCENT: u8 = 37;

pub const CARET: u8 = 94;

pub const LESS: u8 = 60;

pub const AMPERSAND: u8 = 38;

pub const PIPE: u8 = 124;

/// Sets of bytes over which the scanner runs.
#[derive(Clone, Copy)]
pub enum ByteClass {
    /// Space, tab, carriage return, line feed.
    Space,
    /// Decimal digits and the underscore that may separate them.
    Digits,
    /// Letters, digits and underscore.
    Word,
    /// Everything but a line feed.
    Line,
    /// The continuation bytes of a multi-byte character.
    Tail,
}

/// An ASCII digit.
pub open spec fn is_dec_digit(b: u8) -> bool {
    DIGIT_0 <= b <= DIGIT_9
}

/// A byte with which a word starts: an ASCII letter or `_`.
pub open spec fn is_word_start(b: u8) -> bool {
    (LOWER_A <= b <= LOWER_Z) || (UPPER_A <= b <= UPPER_Z) || b == UNDERSCORE
}

/// Whether `b` belongs to the class `c`.
pub open spec fn in_class(c: ByteClass, b: u8) -> bool {
    match c {
        ByteClass::Space => b == SPACE || b == TAB || b == CR || b == LF,
        ByteClass::Digits => is_dec_digit(b) || b == UNDERSCORE,
        ByteClass::Word => is_word_start(b) || is_dec_digit(b),
        ByteClass::Line => b != LF,
        ByteClass::Tail => is_continuation_byte(b),
    }
}

/// Whether position `j` exists and holds byte `b`.
pub open spec fn is_at(bytes: Seq<u8>, j: int, b: u8) -> bool {
    0 <= j < bytes.len() && bytes[j] == b
}

/// The first position from `i` on whose byte is not in class `c`, or the
/// length of `bytes` if there is none.
pub open spec fn run_end(bytes: Seq<u8>, i: int, c: ByteClass) -> int
    decreases bytes.len() - i,
{
    if 0 <= i < bytes.len() && in_class(c, bytes[i]) {
        run_end(bytes, i + 1, c)
    } else {
        i
    }
}

/// Scans the body of a string literal from `j`, just behind the opening
/// quote.  The result tells whether a closing quote was found, and where the
/// scan ended: behind the closing quote, or where no literal can go on (the
/// end of the input, or a line feed behind a backslash).
pub open spec fn string_end(bytes: Seq<u8>, j: int) -> (bool, int)
    decreases bytes.len() - j,
{
    if j < 0 || j >= bytes.len() {
        (false, j)
    } else if bytes[j] == QUOTE {
        (true, j + 1)
    } else if bytes[j] == BACKSLASH {
        if j + 1 >= bytes.len() || bytes[j + 1] == LF {
            (false, j + 1)
        } else {
            string_end(bytes, j + 2)
        }
    } else {
        string_end(bytes, j + 1)
    }
}

/// The position behind the first `*/` at or after `j`, if there is one.
pub open spec fn block_end(bytes: Seq<u8>, j: int) -> Option<int>
    decreases bytes.len() - j,
{
    if j < 0 || j + 1 >= bytes.len() {
        None
    } else if bytes[j] == STAR && bytes[j + 1] == SLASH {
        Some(j + 2)
    } else {
        block_end(bytes, j + 1)
    }
}

/// The kind of a word: a keyword, the lone underscore, or an identifier.
#[verifier::opaque]
pub open spec fn word_kind(word: Seq<char>) -> SyntaxKind {
    if word == "mod"@ {
        SyntaxKind::KwMod
    } else if word == "use"@ {
        SyntaxKind::KwUse
    } else if word == "fn"@ {
        SyntaxKind::KwFn
    } else if word == "async"@ {
        SyntaxKind::KwAsync
    } else if word == "struct"@ {
        SyntaxKind::KwStruct
    } else if word == "enum"@ {
        SyntaxKind::KwEnum
    } else if word == "match"@ {
        SyntaxKind::KwMatch
    } else if word == "if"@ {
        SyntaxKind::KwIf
    } else if word == "else"@ {
        SyntaxKind::KwElse
    } else if word == "for"@ {
        SyntaxKind::KwFor
    } else if word == "in"@ {
        SyntaxKind::KwIn
    } else if word == "return"@ {
        SyntaxKind::KwReturn
    } else if word == "let"@ {
        SyntaxKind::KwLet
    } else if word == "mut"@ {
        SyntaxKind::KwMut
    } else if word == "true"@ {
        SyntaxKind::KwTrue
    } else if word == "false"@ {
        SyntaxKind::KwFalse
    } else if word == "scope"@ {
        SyntaxKind::KwScope
    } else if word == "spawn"@ {
        SyntaxKind::KwSpawn
    } else if word == "join"@ {
        SyntaxKind::KwJoin
    } else if word == "await"@ {
        SyntaxKind::KwAwait
    } else if word == "as"@ {
        SyntaxKind::KwAs
    } else if word == "pub"@ {
        SyntaxKind::KwPub
    } else if word == "_"@ {
        SyntaxKind::Underscore
    } else {
        SyntaxKind::Ident
    }
}

/// The longest operator or punctuation mark that starts at `i`, with the
/// position behind it; `(ErrorToken, i)` where none starts there.  The slash
/// is not among them: see [`slash_at`].
#[verifier::opaque]
pub open spec fn punct_at(bytes: Seq<u8>, i: int) -> (SyntaxKind, int)
    recommends
        0 <= i < bytes.len(),
{
    let b = bytes[i];
    if b == LPAREN {
        (SyntaxKind::LParen, i + 1)
    } else if b == RPAREN {
        (SyntaxKind::RParen, i + 1)
    } else if b == LBRACE {
        (SyntaxKind::LBrace, i + 1)
    } else if b == RBRACE {
        (SyntaxKind::RBrace, i + 1)
    } else if b == LBRACKET {
        (SyntaxKind::LBracket, i + 1)
    } else if b == RBRACKET {
        (SyntaxKind::RBracket, i + 1)
    } else if b == COMMA {
        (SyntaxKind::Comma, i + 1)
    } else if b == SEMICOLON {
        (SyntaxKind::Semi, i + 1)
    } else if b == TILDE {
        (SyntaxKind::Tilde, i + 1)
    } else if b == COLON {
        if is_at(bytes, i + 1, COLON) {
            (SyntaxKind::ColonColon, i + 2)
        } else {
            (SyntaxKind::Colon, i + 1)
        }
    } else if b == DOT {
        if is_at(bytes, i + 1, DOT) {
            if is_at(bytes, i + 2, EQUALS) {
                (SyntaxKind::RangeEq, i + 3)
            } else {
                (SyntaxKind::Range, i + 2)
            }
        } else {
            (SyntaxKind::Dot, i + 1)
        }
    } else if b == MINUS {
        if is_at(bytes, i + 1, GREATER) {
            (SyntaxKind::Arrow, i + 2)
        } else if is_at(bytes, i + 1, EQUALS) {
            (SyntaxKind::MinusEq, i + 2)
        } else {
            (SyntaxKind::Minus, i + 1)
        }
    } else if b == EQUALS {
        if is_at(bytes, i + 1, GREATER) {
            (SyntaxKind::FatArrow, i + 2)
        } else if is_at(bytes, i + 1, EQUALS) {
            (SyntaxKind::EqEq, i + 2)
        } else {
            (SyntaxKind::Eq, i + 1)
        }
    } else if b == QUESTION {
        if is_at(bytes, i + 1, QUESTION) {
            (SyntaxKind::QuestionQuestion, i + 2)
        } else {
            (SyntaxKind::Question, i + 1)
        }
    } else if b == BANG {
        if is_at(bytes, i + 1, EQUALS) {
            (SyntaxKind::Neq, i + 2)
        } else {
            (SyntaxKind::Bang, i + 1)
        }
    } else if b == PLUS {
        if is_at(bytes, i + 1, EQUALS) {
            (SyntaxKind::PlusEq, i + 2)
        } else {
            (SyntaxKind::Plus, i + 1)
        }
    } else if b == STAR {
        if is_at(bytes, i + 1, EQUALS) {
            (SyntaxKind::StarEq, i + 2)
        } else {
            (SyntaxKind::Star, i + 1)
        }
    } else if b == PERCENT {
        if is_at(bytes, i + 1, EQUALS) {
            (SyntaxKind::PercentEq, i + 2)
        } else {
            (SyntaxKind::Percent, i + 1)
        }
    } else if b == CARET {
        if is_at(bytes, i + 1, EQUALS) {
            (SyntaxKind::CaretEq, i + 2)
        } else {
            (SyntaxKind::Caret, i + 1)
        }
    } else if b == LESS {
        if is_at(bytes, i + 1, LESS) {
            if is_at(bytes, i + 2, EQUALS) {
                (SyntaxKind::ShlEq, i + 3)
            } else {
                (SyntaxKind::Shl, i + 2)
            }
        } else if is_at(bytes, i + 1, EQUALS) {
            (SyntaxKind::Lte, i + 2)
        } else {
            (SyntaxKind::Lt, i + 1)
        }
    } else if b == GREATER {
        if is_at(bytes, i + 1, GREATER) {
            if is_at(bytes, i + 2, EQUALS) {
                (SyntaxKind::ShrEq, i + 3)
            } else {
                (SyntaxKind::Shr, i + 2)
            }
        } else if is_at(bytes, i + 1, EQUALS) {
            (SyntaxKind::Gte, i + 2)
        } else {
            (SyntaxKind::Gt, i + 1)
        }
    } else if b == AMPERSAND {
        if is_at(bytes, i + 1, AMPERSAND) {
            (SyntaxKind::AndAnd, i + 2)
        } else if is_at(bytes, i + 1, EQUALS) {
            (SyntaxKind::AmpEq, i + 2)
        } else {
            (SyntaxKind::Amp, i + 1)
        }
    } else if b == PIPE {
        if is_at(bytes, i + 1, PIPE) {
            (SyntaxKind::OrOr, i + 2)
        } else if is_at(bytes, i + 1, EQUALS) {
            (SyntaxKind::PipeEq, i + 2)
        } else {
            (SyntaxKind::Pipe, i + 1)
        }
    } else {
        (SyntaxKind::ErrorToken, i)
    }
}

/// What starts at a slash: a line comment up to the line's end, a block
/// comment up to its first `*/`, `/=`, or the slash alone.  A block comment
/// that is never closed is no comment: its slash stands alone.
pub open spec fn slash_at(bytes: Seq<u8>, i: int) -> (SyntaxKind, int) {
    if is_at(bytes, i + 1, SLASH) {
        (SyntaxKind::Comment, run_end(bytes, i + 2, ByteClass::Line))
    } else if is_at(bytes, i + 1, STAR) && block_end(bytes, i + 2) is Some {
        (SyntaxKind::Comment, block_end(bytes, i + 2)->0)
    } else if is_at(bytes, i + 1, EQUALS) {
        (SyntaxKind::SlashEq, i + 2)
    } else {
        (SyntaxKind::Slash, i + 1)
    }
}

/// A number: digits and underscores behind a first digit; with a dot and a
/// further digit behind them it is a float, which runs on over digits and
/// underscores.
pub open spec fn number_at(bytes: Seq<u8>, i: int) -> (SyntaxKind, int) {
    let e = run_end(bytes, i, ByteClass::Digits);
    if is_at(bytes, e, DOT) && e + 1 < bytes.len() && is_dec_digit(bytes[e + 1]) {
        (SyntaxKind::Float, run_end(bytes, e + 1, ByteClass::Digits))
    } else {
        (SyntaxKind::Int, e)
    }
}

/// The token that starts at position `i` of `bytes`: its kind and the
/// position behind it.  The longest match wins; a keyword wins over an
/// identifier of the same text.  Where no token can start, an `ErrorToken`
/// covers one character; a string literal that is never closed becomes an
/// `ErrorToken` up to where its scan ended.
#[verifier::opaque]
pub open spec fn token_at(bytes: Seq<u8>, i: int) -> (SyntaxKind, int)
    recommends
        0 <= i < bytes.len(),
{
    let b = bytes[i];
    if in_class(ByteClass::Space, b) {
        (SyntaxKind::Whitespace, run_end(bytes, i, ByteClass::Space))
    } else if b == SLASH {
        slash_at(bytes, i)
    } else if is_dec_digit(b) {
        number_at(bytes, i)
    } else if b == QUOTE {
        let (closed, e) = string_end(bytes, i + 1);
        (
            if closed {
                SyntaxKind::String
            } else {
                SyntaxKind::ErrorToken
            },
            e,
        )
    } else if b == LOWER_B && is_at(bytes, i + 1, QUOTE) && string_end(bytes, i + 2).0 {
        (SyntaxKind::Bytes, string_end(bytes, i + 2).1)
    } else if is_word_start(b) {
        let e = run_end(bytes, i, ByteClass::Word);
        (word_kind(decode_utf8(bytes.subrange(i, e))), e)
    } else if punct_at(bytes, i).1 > i {
        punct_at(bytes, i)
    } else {
        (SyntaxKind::ErrorToken, run_end(bytes, i + 1, ByteClass::Tail))
    }
}

/// A token as the rules give it: kind and byte range.
pub struct Lexeme {
    pub kind: SyntaxKind,
    pub start: int,
    pub end: int,
}

/// The tokens of `bytes` from position `i` on, one behind the other.
pub open spec fn lexemes(bytes: Seq<u8>, i: int) -> Seq<Lexeme>
    decreases bytes.len() - i,
{
    if 0 <= i < token_at(bytes, i).1 <= bytes.len() {
        seq![Lexeme { kind: token_at(bytes, i).0, start: i, end: token_at(bytes, i).1 }]
            + lexemes(bytes, token_at(bytes, i).1)
    } else {
        Seq::empty()
    }
}

/// Whether token `t` is lexeme `l` of `bytes`, with the text of its range.
pub open spec fn token_is(bytes: Seq<u8>, t: Token, l: Lexeme) -> bool {
    &&& t.kind == l.kind
    &&& t.span.start == l.start
    &&& t.span.end == l.end
    &&& 0 <= l.start <= l.end <= bytes.len()
    &&& encode_utf8(t.text@) == bytes.subrange(l.start, l.end)
}

/// Whether `tokens` are, one for one, the lexemes `ls` of `bytes`.
pub open spec fn tokens_are(bytes: Seq<u8>, tokens: Seq<Token>, ls: Seq<Lexeme>) -> bool {
    &&& tokens.len() == ls.len()
    &&& forall|k: int| 0 <= k < tokens.len() ==> token_is(bytes, #[trigger] tokens[k], ls[k])
}

/// The texts of `tokens`, one behind the other.
pub open spec fn concat_text(tokens: Seq<Token>) -> Seq<char>
    decreases tokens.len(),
{
    if tokens.len() == 0 {
        Seq::empty()
    } else {
        concat_text(tokens.drop_last()) + tokens.last().text@
    }
}

/// Each token ends where the next one starts; the first starts at `from`.
pub open spec fn contiguous(tokens: Seq<Token>, from: int) -> bool {
    &&& forall|k: int|
        0 <= k < tokens.len() ==> (#[trigger] tokens[k]).span.start < tokens[k].span.end
    &&& tokens.len() > 0 ==> tokens[0].span.start == from
    &&& forall|j: int, k: int|
        #![trigger tokens[j], tokens[k]]
        0 <= j && j + 1 == k && k < tokens.len() ==> tokens[k].span.start == tokens[j].span.end
}

/// A run ends at or behind its start and within the text.
proof fn lemma_run_end_bounds(bytes: Seq<u8>, i: int, c: ByteClass)
    requires
        0 <= i <= bytes.len(),
    ensures
        i <= run_end(bytes, i, c) <= bytes.len(),
        run_end(bytes, i, c) < bytes.len() ==> !in_class(c, bytes[run_end(bytes, i, c)]),
        forall|k: int| i <= k < run_end(bytes, i, c) ==> in_class(c, #[trigger] bytes[k]),
    decreases bytes.len() - i,
{
    if i < bytes.len() && in_class(c, bytes[i]) {
        lemma_run_end_bounds(bytes, i + 1, c);
    }
}

/// The scan of a string stops at or behind its start and within the text.
proof fn lemma_string_end_bounds(bytes: Seq<u8>, j: int)
    requires
        0 <= j <= bytes.len(),
    ensures
        j <= string_end(bytes, j).1 <= bytes.len(),
        string_end(bytes, j).0 ==> j < string_end(bytes, j).1 && bytes[string_end(
            bytes,
            j,
        ).1 - 1] == QUOTE,
        !string_end(bytes, j).0 ==> string_end(bytes, j).1 == bytes.len() || bytes[string_end(
            bytes,
            j,
        ).1] == LF,
    decreases bytes.len() - j,
{
    if j >= bytes.len() {
    } else if bytes[j] == QUOTE {
    } else if bytes[j] == BACKSLASH {
        if j + 1 >= bytes.len() || bytes[j + 1] == LF {
        } else {
            lemma_string_end_bounds(bytes, j + 2);
        }
    } else {
        lemma_string_end_bounds(bytes, j + 1);
    }
}

/// A block comment that ends does so behind its start and within the text.
proof fn lemma_block_end_bounds(bytes: Seq<u8>, j: int)
    requires
        0 <= j <= bytes.len(),
    ensures
        block_end(bytes, j) matches Some(e) ==> j + 2 <= e <= bytes.len() && bytes[e - 1] == SLASH,
    decreases bytes.len() - j,
{
    if j + 1 >= bytes.len() {
    } else if bytes[j] == STAR && bytes[j + 1] == SLASH {
    } else {
        lemma_block_end_bounds(bytes, j + 1);
    }
}

/// Every token is at least one byte long, ends within the input, and ends
/// where a character ends.
pub proof fn lemma_token_at(bytes: Seq<u8>, i: int)
    requires
        valid_utf8(bytes),
        0 <= i < bytes.len(),
    ensures
        i < token_at(bytes, i).1 <= bytes.len(),
        is_char_boundary(bytes, token_at(bytes, i).1),
        token_at(bytes, i).0 != SyntaxKind::Eof,
{
    reveal(word_kind);
    reveal(token_at);
    reveal(punct_at);
    let b = bytes[i];
    let e = token_at(bytes, i).1;
    lemma_run_end_bounds(bytes, i, ByteClass::Space);
    lemma_run_end_bounds(bytes, i, ByteClass::Digits);
    lemma_run_end_bounds(bytes, i, ByteClass::Word);
    lemma_run_end_bounds(bytes, i + 1, ByteClass::Tail);
    lemma_string_end_bounds(bytes, i + 1);
    if in_class(ByteClass::Space, b) {
    } else if b == SLASH {
        if is_at(bytes, i + 1, SLASH) {
            lemma_run_end_bounds(bytes, i + 2, ByteClass::Line);
        } else if is_at(bytes, i + 1, STAR) {
            lemma_block_end_bounds(bytes, i + 2);
        }
    } else if is_dec_digit(b) {
        let e1 = run_end(bytes, i, ByteClass::Digits);
        if is_at(bytes, e1, DOT) && e1 + 1 < bytes.len() && is_dec_digit(bytes[e1 + 1]) {
            lemma_run_end_bounds(bytes, e1 + 1, ByteClass::Digits);
        }
    } else if b == QUOTE {
    } else if b == LOWER_B && is_at(bytes, i + 1, QUOTE) {
        lemma_string_end_bounds(bytes, i + 2);
    } else {
    }
    lemma_boundary(bytes, e);
}

/// One more token keeps the tokens in step with the lexemes.
proof fn lemma_step_lexemes(
    bytes: Seq<u8>,
    before: Seq<Token>,
    found: Seq<Lexeme>,
    token: Token,
    pos: int,
    end: int,
)
    requires
        0 <= pos < end <= bytes.len(),
        tokens_are(bytes, before, found),
        lexemes(bytes, 0) == found + lexemes(bytes, pos),
        token.kind == token_at(bytes, pos).0,
        end == token_at(bytes, pos).1,
        token.span.start == pos,
        token.span.end == end,
        encode_utf8(token.text@) == bytes.subrange(pos, end),
    ensures
        tokens_are(
            bytes,
            before.push(token),
            found.push(Lexeme { kind: token.kind, start: pos, end }),
        ),
        lexemes(bytes, 0) == found.push(Lexeme { kind: token.kind, start: pos, end }) + lexemes(
            bytes,
            end,
        ),
{
    let l = Lexeme { kind: token.kind, start: pos, end };
    let after = before.push(token);
    assert(lexemes(bytes, pos) == seq![l] + lexemes(bytes, end));
    assert(found + (seq![l] + lexemes(bytes, end)) =~= found.push(l) + lexemes(bytes, end));
    assert forall|k: int| 0 <= k < after.len() implies token_is(
        bytes,
        #[trigger] after[k],
        found.push(l)[k],
    ) by {
        if k < before.len() {
            assert(after[k] == before[k]);
            assert(found.push(l)[k] == found[k]);
        }
    }
}

/// One more token keeps the tokens contiguous.
proof fn lemma_step_contiguous(before: Seq<Token>, token: Token, pos: int)
    requires
        contiguous(before, 0),
        before.len() > 0 ==> before.last().span.end == pos,
        before.len() == 0 ==> pos == 0,
        token.span.start == pos,
        pos < token.span.end,
    ensures
        contiguous(before.push(token), 0),
{
    let after = before.push(token);
    assert forall|j: int, k: int|
        #![trigger after[j], after[k]]
        0 <= j && j + 1 == k && k < after.len() implies after[k].span.start
            == after[j].span.end by {
        assert(after[j] == before[j]);
        if k < before.len() {
            assert(after[k] == before[k]);
        }
    }
    assert forall|k: int| 0 <= k < after.len() implies (#[trigger] after[k]).span.start
        < after[k].span.end by {
        if k < before.len() {
            assert(after[k] == before[k]);
        }
    }
}

/// One more token adds its text to the text so far.
proof fn lemma_step_text(bytes: Seq<u8>, before: Seq<Token>, token: Token, pos: int, end: int)
    requires
        valid_utf8(bytes),
        0 <= pos <= end <= bytes.len(),
        is_char_boundary(bytes, pos),
        is_char_boundary(bytes, end),
        concat_text(before) == decode_utf8(bytes.subrange(0, pos)),
        token.text@ == decode_utf8(bytes.subrange(pos, end)),
    ensures
        concat_text(before.push(token)) == decode_utf8(bytes.subrange(0, end)),
{
    let after = before.push(token);
    assert(after.drop_last() =~= before);
    assert(after.last() == token);
    lemma_decode_append(bytes, pos, end);
}

/// Whether `b` belongs to the class `c`.
fn in_class_exec(c: ByteClass, b: u8) -> (r: bool)
    ensures
        r == in_class(c, b),
{
    match c {
        ByteClass::Space => b == SPACE || b == TAB || b == CR || b == LF,
        ByteClass::Digits => (DIGIT_0 <= b && b <= DIGIT_9) || b == UNDERSCORE,
        ByteClass::Word => (LOWER_A <= b && b <= LOWER_Z) || (UPPER_A <= b && b <= UPPER_Z) || b == UNDERSCORE || (
        DIGIT_0 <= b && b <= DIGIT_9),
        ByteClass::Line => b != LF,
        ByteClass::Tail => 0x80 <= b && b <= 0xbf,
    }
}

/// Whether the byte at `j` is `b`.
fn byte_is(bytes: &[u8], j: usize, b: u8) -> (r: bool)
    ensures
        bytes@.len() <= usize::MAX,
        r == is_at(bytes@, j as int, b),
{
    j < bytes.len() && bytes[j] == b
}

/// Where the run of bytes of class `c` from `start` on ends.
fn scan_run(bytes: &[u8], start: usize, c: ByteClass) -> (end: usize)
    requires
        bytes@.len() <= usize::MAX,
        start <= bytes@.len(),
    ensures
        end == run_end(bytes@, start as int, c),
        start <= end <= bytes@.len(),
{
    let mut j: usize = start;
    while j < bytes.len() && in_class_exec(c, bytes[j])
        invariant
            bytes@.len() <= usize::MAX,
            start <= j <= bytes@.len(),
            run_end(bytes@, start as int, c) == run_end(bytes@, j as int, c),
        decreases bytes@.len() - j,
    {
        j += 1;
    }
    j
}

/// Scans the inside of a string from `start` on: whether it is closed, and
/// where the scan stops.
fn scan_string(bytes: &[u8], start: usize) -> (r: (bool, usize))
    requires
        bytes@.len() <= usize::MAX,
        start <= bytes@.len(),
    ensures
        r.0 == string_end(bytes@, start as int).0,
        r.1 == string_end(bytes@, start as int).1,
        start <= r.1 <= bytes@.len(),
{
    let mut j: usize = start;
    loop
        invariant
            bytes@.len() <= usize::MAX,
            start <= j <= bytes@.len(),
            string_end(bytes@, start as int) == string_end(bytes@, j as int),
        decreases bytes@.len() - j,
    {
        if j >= bytes.len() {
            return (false, j);
        }
        let b = bytes[j];
        if b == QUOTE {
            return (true, j + 1);
        }
        if b == BACKSLASH {
            if j + 1 >= bytes.len() || bytes[j + 1] == LF {
                return (false, j + 1);
            }
            j += 2;
        } else {
            j += 1;
        }
    }
}

/// Where the block comment whose inside starts at `start` ends, if it does.
fn scan_block(bytes: &[u8], start: usize) -> (r: Option<usize>)
    requires
        bytes@.len() <= usize::MAX,
        start <= bytes@.len(),
    ensures
        r matches Some(e) ==> block_end(bytes@, start as int) == Some(e as int) && start + 2 <= e
            <= bytes@.len(),
        r is None ==> block_end(bytes@, start as int) is None,
{
    let mut j: usize = start;
    while j < bytes.len() && j + 1 < bytes.len()
        invariant
            bytes@.len() <= usize::MAX,
            start <= j <= bytes@.len(),
            block_end(bytes@, start as int) == block_end(bytes@, j as int),
        decreases bytes@.len() - j,
    {
        if bytes[j] == STAR && bytes[j + 1] == SLASH {
            return Some(j + 2);
        }
        j += 1;
    }
    None
}

/// The punctuation at `i`: its kind and its end.
fn scan_punct(bytes: &[u8], i: usize) -> (r: (SyntaxKind, usize))
    requires
        bytes@.len() <= usize::MAX,
        i < bytes@.len(),
    ensures
        r.0 == punct_at(bytes@, i as int).0,
        r.1 == punct_at(bytes@, i as int).1,
        i <= r.1 <= bytes@.len(),
{
    reveal(punct_at);
    let b = bytes[i];
    let eq = byte_is(bytes, i + 1, EQUALS);
    if b == LPAREN {
        (SyntaxKind::LParen, i + 1)
    } else if b == RPAREN {
        (SyntaxKind::RParen, i + 1)
    } else if b == LBRACE {
        (SyntaxKind::LBrace, i + 1)
    } else if b == RBRACE {
        (SyntaxKind::RBrace, i + 1)
    } else if b == LBRACKET {
        (SyntaxKind::LBracket, i + 1)
    } else if b == RBRACKET {
        (SyntaxKind::RBracket, i + 1)
    } else if b == COMMA {
        (SyntaxKind::Comma, i + 1)
    } else if b == SEMICOLON {
        (SyntaxKind::Semi, i + 1)
    } else if b == TILDE {
        (SyntaxKind::Tilde, i + 1)
    } else if b == COLON {
        if byte_is(bytes, i + 1, COLON) {
            (SyntaxKind::ColonColon, i + 2)
        } else {
            (SyntaxKind::Colon, i + 1)
        }
    } else if b == DOT {
        if byte_is(bytes, i + 1, DOT) {
            if byte_is(bytes, i + 2, EQUALS) {
                (SyntaxKind::RangeEq, i + 3)
            } else {
                (SyntaxKind::Range, i + 2)
            }
        } else {
            (SyntaxKind::Dot, i + 1)
        }
    } else if b == MINUS {
        if byte_is(bytes, i + 1, GREATER) {
            (SyntaxKind::Arrow, i + 2)
        } else if eq {
            (SyntaxKind::MinusEq, i + 2)
        } else {
            (SyntaxKind::Minus, i + 1)
        }
    } else if b == EQUALS {
        if byte_is(bytes, i + 1, GREATER) {
            (SyntaxKind::FatArrow, i + 2)
        } else if eq {
            (SyntaxKind::EqEq, i + 2)
        } else {
            (SyntaxKind::Eq, i + 1)
        }
    } else if b == QUESTION {
        if byte_is(bytes, i + 1, QUESTION) {
            (SyntaxKind::QuestionQuestion, i + 2)
        } else {
            (SyntaxKind::Question, i + 1)
        }
    } else if b == BANG {
        if eq {
            (SyntaxKind::Neq, i + 2)
        } else {
            (SyntaxKind::Bang, i + 1)
        }
    } else if b == PLUS {
        if eq {
            (SyntaxKind::PlusEq, i + 2)
        } else {
            (SyntaxKind::Plus, i + 1)
        }
    } else if b == STAR {
        if eq {
            (SyntaxKind::StarEq, i + 2)
        } else {
            (SyntaxKind::Star, i + 1)
        }
    } else if b == PERCENT {
        if eq {
            (SyntaxKind::PercentEq, i + 2)
        } else {
            (SyntaxKind::Percent, i + 1)
        }
    } else if b == CARET {
        if eq {
            (SyntaxKind::CaretEq, i + 2)
        } else {
            (SyntaxKind::Caret, i + 1)
        }
    } else if b == LESS {
        if byte_is(bytes, i + 1, LESS) {
            if byte_is(bytes, i + 2, EQUALS) {
                (SyntaxKind::ShlEq, i + 3)
            } else {
                (SyntaxKind::Shl, i + 2)
            }
        } else if eq {
            (SyntaxKind::Lte, i + 2)
        } else {
            (SyntaxKind::Lt, i + 1)
        }
    } else if b == GREATER {
        if byte_is(bytes, i + 1, GREATER) {
            if byte_is(bytes, i + 2, EQUALS) {
                (SyntaxKind::ShrEq, i + 3)
            } else {
                (SyntaxKind::Shr, i + 2)
            }
        } else if eq {
            (SyntaxKind::Gte, i + 2)
        } else {
            (SyntaxKind::Gt, i + 1)
        }
    } else if b == AMPERSAND {
        if byte_is(bytes, i + 1, AMPERSAND) {
            (SyntaxKind::AndAnd, i + 2)
        } else if eq {
            (SyntaxKind::AmpEq, i + 2)
        } else {
            (SyntaxKind::Amp, i + 1)
        }
    } else if b == PIPE {
        if byte_is(bytes, i + 1, PIPE) {
            (SyntaxKind::OrOr, i + 2)
        } else if eq {
            (SyntaxKind::PipeEq, i + 2)
        } else {
            (SyntaxKind::Pipe, i + 1)
        }
    } else {
        (SyntaxKind::ErrorToken, i)
    }
}

/// What a `/` at `i` starts: a comment or the operator.
fn scan_slash(bytes: &[u8], i: usize) -> (r: (SyntaxKind, usize))
    requires
        bytes@.len() <= usize::MAX,
        i < bytes@.len(),
    ensures
        r.0 == slash_at(bytes@, i as int).0,
        r.1 == slash_at(bytes@, i as int).1,
{
    if byte_is(bytes, i + 1, SLASH) {
        return (SyntaxKind::Comment, scan_run(bytes, i + 2, ByteClass::Line));
    }
    if byte_is(bytes, i + 1, STAR) {
        if let Some(e) = scan_block(bytes, i + 2) {
            return (SyntaxKind::Comment, e);
        }
    }
    if byte_is(bytes, i + 1, EQUALS) {
        (SyntaxKind::SlashEq, i + 2)
    } else {
        (SyntaxKind::Slash, i + 1)
    }
}

/// The number at `i`: its kind and its end.
fn scan_number(bytes: &[u8], i: usize) -> (r: (SyntaxKind, usize))
    requires
        bytes@.len() <= usize::MAX,
        i < bytes@.len(),
    ensures
        r.0 == number_at(bytes@, i as int).0,
        r.1 == number_at(bytes@, i as int).1,
{
    let e = scan_run(bytes, i, ByteClass::Digits);
    if byte_is(bytes, e, DOT) && e + 1 < bytes.len() && DIGIT_0 <= bytes[e + 1] && bytes[e + 1]
        <= DIGIT_9 {
        (SyntaxKind::Float, scan_run(bytes, e + 1, ByteClass::Digits))
    } else {
        (SyntaxKind::Int, e)
    }
}

/// The kind of the word `word`.
fn classify_word(word: &str) -> (k: SyntaxKind)
    ensures
        k == word_kind(word@),
{
    reveal(word_kind);
    if str_eq(word, "mod") {
        SyntaxKind::KwMod
    } else if str_eq(word, "use") {
        SyntaxKind::KwUse
    } else if str_eq(word, "fn") {
        SyntaxKind::KwFn
    } else if str_eq(word, "async") {
        SyntaxKind::KwAsync
    } else if str_eq(word, "struct") {
        SyntaxKind::KwStruct
    } else if str_eq(word, "enum") {
        SyntaxKind::KwEnum
    } else if str_eq(word, "match") {
        SyntaxKind::KwMatch
    } else if str_eq(word, "if") {
        SyntaxKind::KwIf
    } else if str_eq(word, "else") {
        SyntaxKind::KwElse
    } else if str_eq(word, "for") {
        SyntaxKind::KwFor
    } else if str_eq(word, "in") {
        SyntaxKind::KwIn
    } else if str_eq(word, "return") {
        SyntaxKind::KwReturn
    } else if str_eq(word, "let") {
        SyntaxKind::KwLet
    } else if str_eq(word, "mut") {
        SyntaxKind::KwMut
    } else if str_eq(word, "true") {
        SyntaxKind::KwTrue
    } else if str_eq(word, "false") {
        SyntaxKind::KwFalse
    } else if str_eq(word, "scope") {
        SyntaxKind::KwScope
    } else if str_eq(word, "spawn") {
        SyntaxKind::KwSpawn
    } else if str_eq(word, "join") {
        SyntaxKind::KwJoin
    } else if str_eq(word, "await") {
        SyntaxKind::KwAwait
    } else if str_eq(word, "as") {
        SyntaxKind::KwAs
    } else if str_eq(word, "pub") {
        SyntaxKind::KwPub
    } else if str_eq(word, "_") {
        SyntaxKind::Underscore
    } else {
        SyntaxKind::Ident
    }
}

/// Scans the token that starts at `i`.
fn next_token(source: &str, i: usize) -> (r: (SyntaxKind, usize))
    requires
        i < source.spec_bytes().len(),
        is_char_boundary(source.spec_bytes(), i as int),
    ensures
        r.0 == token_at(source.spec_bytes(), i as int).0,
        r.1 == token_at(source.spec_bytes(), i as int).1,
        i < r.1 <= source.spec_bytes().len(),
        is_char_boundary(source.spec_bytes(), r.1 as int),
        r.0 != SyntaxKind::Eof,
{
    broadcast use encode_utf8_valid_utf8;

    let bytes = source.as_bytes();
    let len = bytes.len();
    proof {
        reveal(token_at);
        lemma_token_at(bytes@, i as int);
    }
    let b = bytes[i];
    if in_class_exec(ByteClass::Space, b) {
        return (SyntaxKind::Whitespace, scan_run(bytes, i, ByteClass::Space));
    }
    if b == SLASH {
        return scan_slash(bytes, i);
    }
    if DIGIT_0 <= b && b <= DIGIT_9 {
        return scan_number(bytes, i);
    }
    if b == QUOTE {
        let (closed, e) = scan_string(bytes, i + 1);
        return (
            if closed {
                SyntaxKind::String
            } else {
                SyntaxKind::ErrorToken
            },
            e,
        );
    }
    if b == LOWER_B && byte_is(bytes, i + 1, QUOTE) {
        let (closed, e) = scan_string(bytes, i + 2);
        if closed {
            return (SyntaxKind::Bytes, e);
        }
    }
    if (LOWER_A <= b && b <= LOWER_Z) || (UPPER_A <= b && b <= UPPER_Z) || b == UNDERSCORE {
        let e = scan_run(bytes, i, ByteClass::Word);
        let word = slice_str(source, i, e);
        return (classify_word(word), e);
    }
    let (kind, e) = scan_punct(bytes, i);
    if e > i {
        return (kind, e);
    }
    (SyntaxKind::ErrorToken, scan_run(bytes, i + 1, ByteClass::Tail))
}

/// Splits `source` into its tokens.
///
/// The tokens are the lexemes that the rules give from the first byte on:
/// each with its kind, its byte range and the text of that range.  They cover
/// the source without gap or overlap, none is empty, and their texts, one
/// behind the other, are the source.
pub fn lex(source: &str) -> (tokens: Vec<Token>)
    ensures
        tokens_are(source.spec_bytes(), tokens@, lexemes(source.spec_bytes(), 0)),
        contiguous(tokens@, 0),
        tokens@.len() > 0 ==> tokens@.last().span.end == source.spec_bytes().len(),
        tokens@.len() == 0 ==> source.spec_bytes().len() == 0,
        concat_text(tokens@) == source@,
        forall|k: int| 0 <= k < tokens@.len() ==> (#[trigger] tokens@[k]).kind != SyntaxKind::Eof,
{
    broadcast use encode_utf8_valid_utf8;

    let ghost bytes = source.spec_bytes();
    let len = source.as_bytes().len();
    let mut tokens: Vec<Token> = Vec::new();
    let mut pos: usize = 0;
    let ghost mut found: Seq<Lexeme> = Seq::empty();
    proof {
        is_char_boundary_start_end_of_seq(bytes);
        assert(bytes.subrange(0, 0) =~= Seq::<u8>::empty());
        assert(decode_utf8(Seq::<u8>::empty()) =~= Seq::<char>::empty());
        assert(found + lexemes(bytes, 0) =~= lexemes(bytes, 0));
    }
    while pos < len
        invariant
            len == bytes.len(),
            bytes == source.spec_bytes(),
            valid_utf8(bytes),
            0 <= pos <= len,
            is_char_boundary(bytes, pos as int),
            contiguous(tokens@, 0),
            tokens@.len() > 0 ==> tokens@.last().span.end == pos,
            tokens@.len() == 0 ==> pos == 0,
            tokens_are(bytes, tokens@, found),
            lexemes(bytes, 0) == found + lexemes(bytes, pos as int),
            concat_text(tokens@) == decode_utf8(bytes.subrange(0, pos as int)),
            forall|k: int|
                0 <= k < tokens@.len() ==> (#[trigger] tokens@[k]).kind != SyntaxKind::Eof,
        decreases len - pos,
    {
        let ghost before = tokens@;
        let (kind, end) = next_token(source, pos);
        let piece = slice_str(source, pos, end);
        let token = Token { kind, text: piece.to_owned(), span: pos..end };
        proof {
            lemma_step_lexemes(bytes, before, found, token, pos as int, end as int);
            lemma_step_contiguous(before, token, pos as int);
            lemma_step_text(bytes, before, token, pos as int, end as int);
        }
        tokens.push(token);
        proof {
            found = found.push(Lexeme { kind, start: pos as int, end: end as int });
        }
        pos = end;
    }
    proof {
        assert(bytes.subrange(0, len as int) =~= bytes);
        assert(found + Seq::<Lexeme>::empty() =~= found);
        encode_utf8_decode_utf8(source@);
    }
    tokens
}

} // verus!
