//! The token data model: a closed set of lexical token kinds, together with
//! the ghost-level [`TokenModel`] that contracts speak about.

use vstd::prelude::*;

verus! {

/// The kind of a single whitespace character; runs are never merged, so each
/// whitespace token stands for exactly one byte of the input.
#[derive(Clone, Debug, Hash, PartialEq, Eq)]
pub enum Whitespace {
    Space,
    Tab,
    Newline,
}

/// A classified, indivisible lexical unit extracted from source bytes.
///
/// String and identifier tokens carry their text; the unsigned integer token
/// carries the accumulated 64-bit value. The set is closed: a new token kind
/// requires a new rule in the lexer.
#[derive(Clone, Debug, Hash, PartialEq, Eq)]
pub enum Token {
    StringLiteral(String),
    UIntLiteral(u64),
    Semicolon,
    Equals,
    Whitespace(Whitespace),
    Minus,
    Identifier(String),
    KeywordInt,
    KeywordLong,
    KeywordVoid,
    OpeningScope,
    ClosingScope,
    Comma,
    OpeningParenthesis,
    ClosingParenthesis,
}

/// The mathematical shape of a token: as `Token`, but with text abstracted to
/// its character sequence. Contracts and the spec-level tokenizer use this.
pub enum TokenModel {
    StringLiteral(Seq<char>),
    UIntLiteral(u64),
    Semicolon,
    Equals,
    Whitespace(Whitespace),
    Minus,
    Identifier(Seq<char>),
    KeywordInt,
    KeywordLong,
    KeywordVoid,
    OpeningScope,
    ClosingScope,
    Comma,
    OpeningParenthesis,
    ClosingParenthesis,
}

impl View for Token {
    type V = TokenModel;

    open spec fn view(&self) -> TokenModel {
        match self {
            Token::StringLiteral(s) => TokenModel::StringLiteral(s@),
            Token::UIntLiteral(v) => TokenModel::UIntLiteral(*v),
            Token::Semicolon => TokenModel::Semicolon,
            Token::Equals => TokenModel::Equals,
            Token::Whitespace(w) => TokenModel::Whitespace(*w),
            Token::Minus => TokenModel::Minus,
            Token::Identifier(s) => TokenModel::Identifier(s@),
            Token::KeywordInt => TokenModel::KeywordInt,
            Token::KeywordLong => TokenModel::KeywordLong,
            Token::KeywordVoid => TokenModel::KeywordVoid,
            Token::OpeningScope => TokenModel::OpeningScope,
            Token::ClosingScope => TokenModel::ClosingScope,
            Token::Comma => TokenModel::Comma,
            Token::OpeningParenthesis => TokenModel::OpeningParenthesis,
            Token::ClosingParenthesis => TokenModel::ClosingParenthesis,
        }
    }
}

} // verus!
