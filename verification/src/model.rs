//! The spec-level tokenizer: pure mathematical functions over a byte
//! sequence that say, for every position, which token the lexer recognizes
//! there and where the next token starts. Every rule of the executable
//! lexer is verified against [`next_token`].

use vstd::prelude::*;
use crate::token::{TokenModel, Whitespace};

verus! {

pub const SEMICOLON: u8 = 59;
pub const EQUALS: u8 = 61;
pub const SPACE: u8 = 32;
pub const NEWLINE: u8 = 10;
pub const TAB: u8 = 9;
pub const MINUS: u8 = 45;
pub const COMMA: u8 = 44;
pub const STRING_BRACKET: u8 = 34;
pub const ESCAPE: u8 = 92;
pub const UNDERSCORE: u8 = 95;
pub const OPENING_PARENTHESIS: u8 = 40;
pub const CLOSING_PARENTHESIS: u8 = 41;
pub const OPENING_SCOPE: u8 = 123;
pub const CLOSING_SCOPE: u8 = 125;

/// An ASCII decimal digit.
pub open spec fn is_digit(c: u8) -> bool {
    48 <= c && c <= 57
}

/// A byte that extends an unsigned integer literal: a digit, or an
/// underscore used as a digit-group separator.
pub open spec fn is_num_char(c: u8) -> bool {
    is_digit(c) || c == UNDERSCORE
}

/// A byte that may stand anywhere in an identifier: an ASCII letter or an
/// underscore. Digits are deliberately excluded, even after the first
/// character.
pub open spec fn is_identifier_char(c: u8) -> bool {
    (97 <= c && c <= 122) || (65 <= c && c <= 90) || c == UNDERSCORE
}

/// The token recognized by the eight single-byte punctuation rules, tried
/// first and in this order.
pub open spec fn punct_token(c: u8) -> Option<TokenModel> {
    if c == SEMICOLON {
        Some(TokenModel::Semicolon)
    } else if c == EQUALS {
        Some(TokenModel::Equals)
    } else if c == MINUS {
        Some(TokenModel::Minus)
    } else if c == COMMA {
        Some(TokenModel::Comma)
    } else if c == OPENING_PARENTHESIS {
        Some(TokenModel::OpeningParenthesis)
    } else if c == CLOSING_PARENTHESIS {
        Some(TokenModel::ClosingParenthesis)
    } else if c == OPENING_SCOPE {
        Some(TokenModel::OpeningScope)
    } else if c == CLOSING_SCOPE {
        Some(TokenModel::ClosingScope)
    } else {
        None
    }
}

/// The token recognized by the whitespace rule: exactly one token per
/// whitespace character.
pub open spec fn whitespace_token(c: u8) -> Option<TokenModel> {
    if c == SPACE {
        Some(TokenModel::Whitespace(Whitespace::Space))
    } else if c == TAB {
        Some(TokenModel::Whitespace(Whitespace::Tab))
    } else if c == NEWLINE {
        Some(TokenModel::Whitespace(Whitespace::Newline))
    } else {
        None
    }
}

/// The first index at or after `i` whose byte no longer extends an unsigned
/// integer literal (or the end of the buffer).
pub open spec fn num_run_end(buf: Seq<u8>, i: int) -> int
    decreases buf.len() - i,
{
    if i < buf.len() && is_num_char(buf[i]) {
        num_run_end(buf, i + 1)
    } else {
        i
    }
}

/// One accumulation step of the integer rule: shift in a decimal digit,
/// wrapping silently on 64-bit overflow as the lexer does.
pub open spec fn uint_step(acc: u64, d: u8) -> u64 {
    ((acc * 10 + (d - 48)) % 0x1_0000_0000_0000_0000) as u64
}

/// The value accumulated by the integer rule over `buf[i .. end]`, starting
/// from `acc`: digits are shifted in with [`uint_step`], underscores are
/// skipped.
pub open spec fn uint_acc(buf: Seq<u8>, i: int, end: int, acc: u64) -> u64
    decreases end - i,
{
    if i < end {
        if is_digit(buf[i]) {
            uint_acc(buf, i + 1, end, uint_step(acc, buf[i]))
        } else {
            uint_acc(buf, i + 1, end, acc)
        }
    } else {
        acc
    }
}

/// The exact mathematical value of the digits in `buf[i .. end]` with
/// underscores removed, starting from `acc`, computed without wrapping.
pub open spec fn digits_value_acc(buf: Seq<u8>, i: int, end: int, acc: nat) -> nat
    decreases end - i,
{
    if i < end {
        if is_digit(buf[i]) {
            digits_value_acc(buf, i + 1, end, acc * 10 + (buf[i] - 48) as nat)
        } else {
            digits_value_acc(buf, i + 1, end, acc)
        }
    } else {
        acc
    }
}

/// The value of the digit sequence `buf[i .. end]` with underscores removed.
pub open spec fn digits_value(buf: Seq<u8>, i: int, end: int) -> nat {
    digits_value_acc(buf, i, end, 0)
}

/// The string-literal scan from position `i` (just past the opening quote),
/// with `pending` recording whether a backslash awaits its escape and `acc`
/// the text decoded so far. Returns the decoded text and the position just
/// past the closing quote, or `None` if the buffer ends first.
pub open spec fn string_scan(buf: Seq<u8>, i: int, pending: bool, acc: Seq<char>) -> Option<
    (Seq<char>, int),
>
    decreases buf.len() - i,
{
    if i < buf.len() {
        let c = buf[i];
        if c == ESCAPE {
            if pending {
                string_scan(buf, i + 1, false, acc.push(ESCAPE as char))
            } else {
                string_scan(buf, i + 1, true, acc)
            }
        } else if c == STRING_BRACKET {
            if pending {
                string_scan(buf, i + 1, false, acc.push(STRING_BRACKET as char))
            } else {
                Some((acc, i + 1))
            }
        } else if c == 110 && pending {
            string_scan(buf, i + 1, false, acc.push(NEWLINE as char))
        } else if c == 116 && pending {
            string_scan(buf, i + 1, false, acc.push(TAB as char))
        } else {
            string_scan(buf, i + 1, false, acc.push(c as char))
        }
    } else {
        None
    }
}

/// The exact byte sequences `int`, `long` and `void` at position `pos`. No
/// boundary check follows the keyword: because these rules run before the
/// identifier rule, `intx` lexes as the keyword `int` followed by the
/// identifier `x`.
pub open spec fn keyword_int_at(buf: Seq<u8>, pos: int) -> bool {
    pos + 3 <= buf.len() && buf[pos] == 105 && buf[pos + 1] == 110 && buf[pos + 2] == 116
}

/// The byte sequence `long` at position `pos`.
pub open spec fn keyword_long_at(buf: Seq<u8>, pos: int) -> bool {
    pos + 4 <= buf.len() && buf[pos] == 108 && buf[pos + 1] == 111 && buf[pos + 2] == 110
        && buf[pos + 3] == 103
}

/// The byte sequence `void` at position `pos`.
pub open spec fn keyword_void_at(buf: Seq<u8>, pos: int) -> bool {
    pos + 4 <= buf.len() && buf[pos] == 118 && buf[pos + 1] == 111 && buf[pos + 2] == 105
        && buf[pos + 3] == 100
}

/// The first index at or after `i` whose byte is not an identifier
/// character (or the end of the buffer).
pub open spec fn ident_run_end(buf: Seq<u8>, i: int) -> int
    decreases buf.len() - i,
{
    if i < buf.len() && is_identifier_char(buf[i]) {
        ident_run_end(buf, i + 1)
    } else {
        i
    }
}

/// The text of the identifier spanning `buf[start .. end]`.
pub open spec fn ident_chars(buf: Seq<u8>, start: int, end: int) -> Seq<char> {
    Seq::new((end - start) as nat, |j: int| buf[start + j] as char)
}

/// The tokenizer itself: the token recognized at `pos` and the position just
/// past it, or `None` when no rule matches there (end of input, an
/// unrecognized byte, or an unterminated string literal — the lexer does not
/// distinguish these). The if-chain mirrors the fixed rule order:
/// punctuation, whitespace, integer, string, keywords, identifier.
pub open spec fn next_token(buf: Seq<u8>, pos: int) -> Option<(TokenModel, int)> {
    if 0 <= pos < buf.len() {
        let c = buf[pos];
        match punct_token(c) {
            Some(t) => Some((t, pos + 1)),
            None => match whitespace_token(c) {
                Some(t) => Some((t, pos + 1)),
                None => if is_digit(c) {
                    let end = num_run_end(buf, pos + 1);
                    Some((TokenModel::UIntLiteral(uint_acc(buf, pos + 1, end, (c - 48) as u64)), end))
                } else if c == STRING_BRACKET {
                    match string_scan(buf, pos + 1, false, Seq::empty()) {
                        Some((s, end)) => Some((TokenModel::StringLiteral(s), end)),
                        None => None,
                    }
                } else if keyword_int_at(buf, pos) {
                    Some((TokenModel::KeywordInt, pos + 3))
                } else if keyword_long_at(buf, pos) {
                    Some((TokenModel::KeywordLong, pos + 4))
                } else if keyword_void_at(buf, pos) {
                    Some((TokenModel::KeywordVoid, pos + 4))
                } else if is_identifier_char(c) {
                    let end = ident_run_end(buf, pos + 1);
                    Some((TokenModel::Identifier(ident_chars(buf, pos, end)), end))
                } else {
                    None
                },
            },
        }
    } else {
        None
    }
}

/// The canonical quoted spelling of one content byte: the backslash and
/// the quote are escaped with a backslash, every other byte stands for
/// itself.
pub open spec fn escape_byte(b: u8) -> Seq<u8> {
    if b == ESCAPE {
        seq![ESCAPE, ESCAPE]
    } else if b == STRING_BRACKET {
        seq![ESCAPE, STRING_BRACKET]
    } else {
        seq![b]
    }
}

/// The canonical quoted spelling of a content byte sequence: each byte
/// escaped as needed, in order.
pub open spec fn escape_encode(cs: Seq<u8>) -> Seq<u8>
    decreases cs.len(),
{
    if cs.len() == 0 {
        Seq::empty()
    } else {
        escape_byte(cs[0]) + escape_encode(cs.skip(1))
    }
}

/// The text that a content byte sequence decodes to, character for
/// character.
pub open spec fn chars_of(cs: Seq<u8>) -> Seq<char> {
    cs.map_values(|b: u8| b as char)
}

/// The source spellings of a token: whether `bytes` is a byte sequence
/// that the lexer reads as exactly this token. The slice a successful
/// match consumes always spells the token it produced, which is the
/// round-trip law: concatenating the consumed slices rebuilds the input.
pub open spec fn spells(t: TokenModel, bytes: Seq<u8>) -> bool {
    match t {
        TokenModel::Semicolon => bytes == seq![SEMICOLON],
        TokenModel::Equals => bytes == seq![EQUALS],
        TokenModel::Minus => bytes == seq![MINUS],
        TokenModel::Comma => bytes == seq![COMMA],
        TokenModel::OpeningParenthesis => bytes == seq![OPENING_PARENTHESIS],
        TokenModel::ClosingParenthesis => bytes == seq![CLOSING_PARENTHESIS],
        TokenModel::OpeningScope => bytes == seq![OPENING_SCOPE],
        TokenModel::ClosingScope => bytes == seq![CLOSING_SCOPE],
        TokenModel::Whitespace(w) => match w {
            Whitespace::Space => bytes == seq![SPACE],
            Whitespace::Tab => bytes == seq![TAB],
            Whitespace::Newline => bytes == seq![NEWLINE],
        },
        TokenModel::UIntLiteral(v) => bytes.len() > 0 && is_digit(bytes[0]) && (forall|k: int|
            0 <= k < bytes.len() ==> is_num_char(bytes[k])) && v == uint_acc(
            bytes,
            1,
            bytes.len() as int,
            (bytes[0] - 48) as u64,
        ),
        TokenModel::StringLiteral(s) => bytes.len() >= 2 && bytes[0] == STRING_BRACKET
            && string_scan(bytes, 1, false, Seq::empty()) == Some((s, bytes.len() as int)),
        TokenModel::KeywordInt => bytes == seq![105u8, 110u8, 116u8],
        TokenModel::KeywordLong => bytes == seq![108u8, 111u8, 110u8, 103u8],
        TokenModel::KeywordVoid => bytes == seq![118u8, 111u8, 105u8, 100u8],
        TokenModel::Identifier(s) => bytes.len() > 0 && (forall|k: int|
            0 <= k < bytes.len() ==> is_identifier_char(bytes[k])) && s == ident_chars(
            bytes,
            0,
            bytes.len() as int,
        ),
    }
}

} // verus!
