//! The executable lexer: a cursor with a committed and a speculative
//! position over the byte buffer, and the ordered list of token rules that
//! [`Lexer::get_token`] tries at the current committed position. Every rule
//! is verified against the spec tokenizer in [`crate::model`].

use vstd::prelude::*;
use crate::model::{
    SEMICOLON, EQUALS, SPACE, NEWLINE, TAB, MINUS, COMMA, STRING_BRACKET, ESCAPE,
    OPENING_PARENTHESIS, CLOSING_PARENTHESIS, OPENING_SCOPE, CLOSING_SCOPE,
    is_digit, is_identifier_char, whitespace_token, num_run_end, uint_acc, string_scan,
    keyword_int_at, keyword_long_at, keyword_void_at, ident_run_end, ident_chars, next_token,
};
use crate::token::{Token, TokenModel, Whitespace};

verus! {

/// Whether `c` may stand anywhere in an identifier: an ASCII letter or an
/// underscore, never a digit.
fn is_valid_identifier_character(c: u8) -> (r: bool)
    ensures
        r == is_identifier_char(c),
{
    if c >= 97 && c <= 122 {
        true
    } else if c >= 65 && c <= 90 {
        true
    } else {
        c == 95
    }
}

/// Relies on String::push: appends exactly one character at the end.
#[verifier::external_body]
fn push_char(s: &mut String, c: char)
    ensures
        final(s)@ == old(s)@.push(c),
{
    s.push(c);
}

/// The backtracking cursor over the byte buffer: `idx` is the committed
/// position (end of all accepted tokens), `peek_idx` the speculative
/// position of an in-progress match attempt. Only the first `len` bytes of
/// the buffer are ever read.
#[derive(Clone, Debug)]
struct Cursor {
    bytes: Vec<u8>,
    idx: usize,
    peek_idx: usize,
    len: usize,
}

impl Cursor {
    /// The cursor invariant: the committed position never passes the
    /// speculative one, and both stay inside the buffer.
    spec fn wf(&self) -> bool {
        self.idx <= self.peek_idx && self.peek_idx <= self.len && self.len <= self.bytes@.len()
    }

    /// The effective buffer: the first `len` bytes.
    spec fn buf(&self) -> Seq<u8> {
        self.bytes@.take(self.len as int)
    }

    fn new(bytes: Vec<u8>, idx: usize, len: usize) -> (r: Cursor)
        requires
            idx <= len,
            len <= bytes@.len(),
        ensures
            r.wf(),
            r.buf() == bytes@.take(len as int),
            r.idx == idx,
            r.peek_idx == idx,
            r.len == len,
    {
        Cursor { bytes, idx, peek_idx: idx, len }
    }

    /// Abandon the current lookahead: the speculative position returns to
    /// the committed one.
    fn reset(&mut self)
        requires
            old(self).wf(),
        ensures
            final(self).wf(),
            *final(self) == (Cursor { peek_idx: old(self).idx, ..*old(self) }),
    {
        self.peek_idx = self.idx;
    }

    /// Promote the lookahead: every byte peeked since the last reset or
    /// commit becomes part of the token just recognized.
    fn fwd(&mut self)
        requires
            old(self).wf(),
        ensures
            final(self).wf(),
            *final(self) == (Cursor { idx: old(self).peek_idx, ..*old(self) }),
    {
        self.idx = self.peek_idx;
    }

    /// Reset the speculative position, then read the byte at the committed
    /// position and consume it, moving the committed position past it (and,
    /// unlike every other operation, ahead of the speculative one). Kept for
    /// parity with the cursor's interface; the rules all go through `peek`.
    fn _next(&mut self) -> (r: Option<u8>)
        requires
            old(self).wf(),
        ensures
            final(self).bytes == old(self).bytes,
            final(self).len == old(self).len,
            final(self).peek_idx == old(self).idx,
            old(self).idx < old(self).len ==> r == Some(old(self).buf()[old(self).idx as int])
                && final(self).idx == old(self).idx + 1,
            old(self).idx >= old(self).len ==> r is None && final(self).idx == old(self).idx,
    {
        self.reset();
        if self.idx < self.len {
            let val = Some(self.bytes[self.idx]);
            self.idx = self.idx + 1;
            val
        } else {
            None
        }
    }

    /// Consume `n` already-peeked bytes: the committed position moves
    /// forward by `n`, which must not pass the speculative position. Kept
    /// for parity with the cursor's interface; the rules commit with `fwd`.
    fn _consume(&mut self, n: usize)
        requires
            old(self).wf(),
            old(self).idx + n <= old(self).peek_idx,
        ensures
            final(self).wf(),
            *final(self) == (Cursor { idx: (old(self).idx + n) as usize, ..*old(self) }),
    {
        self.idx = self.idx + n;
    }

    /// Read the byte at the speculative position and advance it by one;
    /// at the end of the buffer, return nothing and change nothing.
    fn peek(&mut self) -> (r: Option<u8>)
        requires
            old(self).wf(),
        ensures
            final(self).wf(),
            old(self).peek_idx < old(self).len ==> r == Some(old(self).buf()[old(self).peek_idx as int])
                && *final(self) == (Cursor { peek_idx: (old(self).peek_idx + 1) as usize, ..*old(self) }),
            old(self).peek_idx >= old(self).len ==> r is None && *final(self) == *old(self),
    {
        if self.peek_idx < self.len {
            let val = Some(self.bytes[self.peek_idx]);
            self.peek_idx = self.peek_idx + 1;
            val
        } else {
            None
        }
    }
}

/// The lexer: one cursor, no other state. Each call to [`Lexer::get_token`]
/// tries the fixed, ordered rule list at the current committed position and
/// returns the first token recognized there.
#[derive(Clone, Debug)]
pub struct Lexer {
    cursor: Cursor,
}

impl Lexer {
    /// The lexer invariant between rule attempts: the cursor is
    /// well-formed and the speculative position sits at the committed one.
    pub closed spec fn wf(&self) -> bool {
        self.cursor.wf() && self.cursor.peek_idx == self.cursor.idx
    }

    /// The byte buffer being tokenized (its first `len` bytes).
    pub closed spec fn buf(&self) -> Seq<u8> {
        self.cursor.buf()
    }

    /// The committed position: the end of all tokens returned so far, and
    /// the start of the next match attempt.
    pub closed spec fn pos(&self) -> int {
        self.cursor.idx as int
    }

    /// Build a lexer over `bytes[idx .. len]`; `len` must not exceed the
    /// buffer and `idx` must not exceed `len`.
    pub fn new(bytes: Vec<u8>, idx: usize, len: usize) -> (r: Lexer)
        requires
            idx <= len,
            len <= bytes@.len(),
        ensures
            r.wf(),
            r.buf() == bytes@.take(len as int),
            r.pos() == idx as int,
    {
        Lexer { cursor: Cursor::new(bytes, idx, len) }
    }

    fn semicolon(&mut self) -> (r: Option<Token>)
        requires
            old(self).wf(),
        ensures
            final(self).wf(),
            final(self).buf() == old(self).buf(),
            match r {
                Some(t) => old(self).pos() < old(self).buf().len()
                    && old(self).buf()[old(self).pos()] == SEMICOLON
                    && t@ == TokenModel::Semicolon
                    && final(self).pos() == old(self).pos() + 1,
                None => final(self).pos() == old(self).pos()
                    && !(old(self).pos() < old(self).buf().len()
                        && old(self).buf()[old(self).pos()] == SEMICOLON),
            },
    {
        match self.cursor.peek() {
            Some(c) => {
                if c == SEMICOLON {
                    self.cursor.fwd();
                    Some(Token::Semicolon)
                } else {
                    self.cursor.reset();
                    None
                }
            },
            None => None,
        }
    }

    fn equals(&mut self) -> (r: Option<Token>)
        requires
            old(self).wf(),
        ensures
            final(self).wf(),
            final(self).buf() == old(self).buf(),
            match r {
                Some(t) => old(self).pos() < old(self).buf().len()
                    && old(self).buf()[old(self).pos()] == EQUALS
                    && t@ == TokenModel::Equals
                    && final(self).pos() == old(self).pos() + 1,
                None => final(self).pos() == old(self).pos()
                    && !(old(self).pos() < old(self).buf().len()
                        && old(self).buf()[old(self).pos()] == EQUALS),
            },
    {
        match self.cursor.peek() {
            Some(c) => {
                if c == EQUALS {
                    self.cursor.fwd();
                    Some(Token::Equals)
                } else {
                    self.cursor.reset();
                    None
                }
            },
            None => None,
        }
    }

    fn minus(&mut self) -> (r: Option<Token>)
        requires
            old(self).wf(),
        ensures
            final(self).wf(),
            final(self).buf() == old(self).buf(),
            match r {
                Some(t) => old(self).pos() < old(self).buf().len()
                    && old(self).buf()[old(self).pos()] == MINUS
                    && t@ == TokenModel::Minus
                    && final(self).pos() == old(self).pos() + 1,
                None => final(self).pos() == old(self).pos()
                    && !(old(self).pos() < old(self).buf().len()
                        && old(self).buf()[old(self).pos()] == MINUS),
            },
    {
        match self.cursor.peek() {
            Some(c) => {
                if c == MINUS {
                    self.cursor.fwd();
                    Some(Token::Minus)
                } else {
                    self.cursor.reset();
                    None
                }
            },
            None => None,
        }
    }

    fn comma(&mut self) -> (r: Option<Token>)
        requires
            old(self).wf(),
        ensures
            final(self).wf(),
            final(self).buf() == old(self).buf(),
            match r {
                Some(t) => old(self).pos() < old(self).buf().len()
                    && old(self).buf()[old(self).pos()] == COMMA
                    && t@ == TokenModel::Comma
                    && final(self).pos() == old(self).pos() + 1,
                None => final(self).pos() == old(self).pos()
                    && !(old(self).pos() < old(self).buf().len()
                        && old(self).buf()[old(self).pos()] == COMMA),
            },
    {
        match self.cursor.peek() {
            Some(c) => {
                if c == COMMA {
                    self.cursor.fwd();
                    Some(Token::Comma)
                } else {
                    self.cursor.reset();
                    None
                }
            },
            None => None,
        }
    }

    fn opening_parenthesis(&mut self) -> (r: Option<Token>)
        requires
            old(self).wf(),
        ensures
            final(self).wf(),
            final(self).buf() == old(self).buf(),
            match r {
                Some(t) => old(self).pos() < old(self).buf().len()
                    && old(self).buf()[old(self).pos()] == OPENING_PARENTHESIS
                    && t@ == TokenModel::OpeningParenthesis
                    && final(self).pos() == old(self).pos() + 1,
                None => final(self).pos() == old(self).pos()
                    && !(old(self).pos() < old(self).buf().len()
                        && old(self).buf()[old(self).pos()] == OPENING_PARENTHESIS),
            },
    {
        match self.cursor.peek() {
            Some(c) => {
                if c == OPENING_PARENTHESIS {
                    self.cursor.fwd();
                    Some(Token::OpeningParenthesis)
                } else {
                    self.cursor.reset();
                    None
                }
            },
            None => None,
        }
    }

    fn closing_parenthesis(&mut self) -> (r: Option<Token>)
        requires
            old(self).wf(),
        ensures
            final(self).wf(),
            final(self).buf() == old(self).buf(),
            match r {
                Some(t) => old(self).pos() < old(self).buf().len()
                    && old(self).buf()[old(self).pos()] == CLOSING_PARENTHESIS
                    && t@ == TokenModel::ClosingParenthesis
                    && final(self).pos() == old(self).pos() + 1,
                None => final(self).pos() == old(self).pos()
                    && !(old(self).pos() < old(self).buf().len()
                        && old(self).buf()[old(self).pos()] == CLOSING_PARENTHESIS),
            },
    {
        match self.cursor.peek() {
            Some(c) => {
                if c == CLOSING_PARENTHESIS {
                    self.cursor.fwd();
                    Some(Token::ClosingParenthesis)
                } else {
                    self.cursor.reset();
                    None
                }
            },
            None => None,
        }
    }

    fn opening_scope(&mut self) -> (r: Option<Token>)
        requires
            old(self).wf(),
        ensures
            final(self).wf(),
            final(self).buf() == old(self).buf(),
            match r {
                Some(t) => old(self).pos() < old(self).buf().len()
                    && old(self).buf()[old(self).pos()] == OPENING_SCOPE
                    && t@ == TokenModel::OpeningScope
                    && final(self).pos() == old(self).pos() + 1,
                None => final(self).pos() == old(self).pos()
                    && !(old(self).pos() < old(self).buf().len()
                        && old(self).buf()[old(self).pos()] == OPENING_SCOPE),
            },
    {
        match self.cursor.peek() {
            Some(c) => {
                if c == OPENING_SCOPE {
                    self.cursor.fwd();
                    Some(Token::OpeningScope)
                } else {
                    self.cursor.reset();
                    None
                }
            },
            None => None,
        }
    }

    fn closing_scope(&mut self) -> (r: Option<Token>)
        requires
            old(self).wf(),
        ensures
            final(self).wf(),
            final(self).buf() == old(self).buf(),
            match r {
                Some(t) => old(self).pos() < old(self).buf().len()
                    && old(self).buf()[old(self).pos()] == CLOSING_SCOPE
                    && t@ == TokenModel::ClosingScope
                    && final(self).pos() == old(self).pos() + 1,
                None => final(self).pos() == old(self).pos()
                    && !(old(self).pos() < old(self).buf().len()
                        && old(self).buf()[old(self).pos()] == CLOSING_SCOPE),
            },
    {
        match self.cursor.peek() {
            Some(c) => {
                if c == CLOSING_SCOPE {
                    self.cursor.fwd();
                    Some(Token::ClosingScope)
                } else {
                    self.cursor.reset();
                    None
                }
            },
            None => None,
        }
    }

    fn whitespace(&mut self) -> (r: Option<Token>)
        requires
            old(self).wf(),
        ensures
            final(self).wf(),
            final(self).buf() == old(self).buf(),
            match r {
                Some(t) => old(self).pos() < old(self).buf().len()
                    && whitespace_token(old(self).buf()[old(self).pos()]) == Some(t@)
                    && final(self).pos() == old(self).pos() + 1,
                None => final(self).pos() == old(self).pos()
                    && !(old(self).pos() < old(self).buf().len()
                        && whitespace_token(old(self).buf()[old(self).pos()]) is Some),
            },
    {
        match self.cursor.peek() {
            Some(c) => {
                let token = if c == SPACE {
                    Some(Token::Whitespace(Whitespace::Space))
                } else if c == TAB {
                    Some(Token::Whitespace(Whitespace::Tab))
                } else if c == NEWLINE {
                    Some(Token::Whitespace(Whitespace::Newline))
                } else {
                    None
                };
                match token {
                    Some(token) => {
                        self.cursor.fwd();
                        Some(token)
                    },
                    None => {
                        self.cursor.reset();
                        None
                    },
                }
            },
            None => None,
        }
    }

    fn uint_literal(&mut self) -> (r: Option<Token>)
        requires
            old(self).wf(),
        ensures
            final(self).wf(),
            final(self).buf() == old(self).buf(),
            match r {
                Some(t) => ({
                    let b = old(self).buf();
                    let p = old(self).pos();
                    let end = num_run_end(b, p + 1);
                    p < b.len() && is_digit(b[p])
                        && t@ == TokenModel::UIntLiteral(uint_acc(b, p + 1, end, (b[p] - 48) as u64))
                        && final(self).pos() == end
                }),
                None => final(self).pos() == old(self).pos()
                    && !(old(self).pos() < old(self).buf().len()
                        && is_digit(old(self).buf()[old(self).pos()])),
            },
    {
        let ghost b = self.buf();
        let ghost p = self.pos();
        let c = match self.cursor.peek() {
            Some(c) => c,
            None => {
                return None;
            },
        };
        if !(c >= 48 && c <= 57) {
            self.cursor.reset();
            return None;
        }
        self.cursor.fwd();
        let mut val: u64 = (c - 48) as u64;
        let ghost d0 = (b[p] - 48) as u64;
        let ghost end = num_run_end(b, p + 1);
        proof {
            crate::laws::lemma_num_run_end_bounds(b, p + 1);
        }
        loop
            invariant_except_break
                self.wf(),
                self.buf() == b,
                0 <= p < b.len(),
                is_digit(b[p]),
                p + 1 <= self.pos() <= b.len(),
                num_run_end(b, self.pos()) == end,
                uint_acc(b, p + 1, end, d0) == uint_acc(b, self.pos(), end, val),
            ensures
                self.cursor.wf(),
                self.buf() == b,
                self.pos() == end,
                val == uint_acc(b, p + 1, end, d0),
            decreases b.len() - self.pos(),
        {
            match self.cursor.peek() {
                Some(c2) => {
                    if c2 == 95 {
                        proof {
                            crate::laws::lemma_num_run_end_bounds(b, self.pos() + 1);
                        }
                        self.cursor.fwd();
                    } else if c2 >= 48 && c2 <= 57 {
                        proof {
                            crate::laws::lemma_num_run_end_bounds(b, self.pos() + 1);
                            vstd::arithmetic::div_mod::lemma_mod_adds(
                                (val as int) * 10,
                                (c2 - 48) as int,
                                0x1_0000_0000_0000_0000,
                            );
                        }
                        val = val.wrapping_mul(10).wrapping_add((c2 - 48) as u64);
                        self.cursor.fwd();
                    } else {
                        break;
                    }
                },
                None => {
                    break;
                },
            }
        }
        self.cursor.reset();
        Some(Token::UIntLiteral(val))
    }

    fn string_literal(&mut self) -> (r: Option<Token>)
        requires
            old(self).wf(),
        ensures
            final(self).wf(),
            final(self).buf() == old(self).buf(),
            match r {
                Some(t) => ({
                    let b = old(self).buf();
                    let p = old(self).pos();
                    p < b.len() && b[p] == STRING_BRACKET && (match string_scan(
                        b,
                        p + 1,
                        false,
                        Seq::empty(),
                    ) {
                        Some(se) => t@ == TokenModel::StringLiteral(se.0) && final(self).pos()
                            == se.1,
                        None => false,
                    })
                }),
                None => final(self).pos() == old(self).pos() && !(old(self).pos() < old(self).buf().len() && old(self).buf()[old(self).pos()] == STRING_BRACKET && string_scan(
                    old(self).buf(),
                    old(self).pos() + 1,
                    false,
                    Seq::empty(),
                ) is Some),
            },
    {
        let ghost b = self.buf();
        let ghost p = self.pos();
        match self.cursor.peek() {
            Some(c) => {
                if c != STRING_BRACKET {
                    self.cursor.reset();
                    return None;
                }
            },
            None => {},
        }
        let mut res = String::new();
        let mut last_was_escape: bool = false;
        loop
            invariant_except_break
                self.cursor.wf(),
                self.buf() == b,
                b == old(self).buf(),
                self.cursor.idx as int == p,
                p == old(self).pos(),
                p < b.len() ==> b[p] == STRING_BRACKET,
                p <= self.cursor.peek_idx as int <= b.len(),
                string_scan(b, p + 1, false, Seq::empty()) == string_scan(
                    b,
                    self.cursor.peek_idx as int,
                    last_was_escape,
                    res@,
                ),
            ensures
                self.cursor.wf(),
                self.buf() == b,
                self.cursor.idx as int == p,
                string_scan(b, p + 1, false, Seq::empty()) is None,
            decreases b.len() - self.cursor.peek_idx,
        {
            match self.cursor.peek() {
                Some(c) => {
                    if c == ESCAPE {
                        if last_was_escape {
                            last_was_escape = false;
                            push_char(&mut res, 92u8 as char);
                        } else {
                            last_was_escape = true;
                        }
                    } else if c == STRING_BRACKET {
                        if last_was_escape {
                            last_was_escape = false;
                            push_char(&mut res, 34u8 as char);
                        } else {
                            self.cursor.fwd();
                            return Some(Token::StringLiteral(res));
                        }
                    } else if c == 110 && last_was_escape {
                        push_char(&mut res, 10u8 as char);
                        last_was_escape = false;
                    } else if c == 116 && last_was_escape {
                        push_char(&mut res, 9u8 as char);
                        last_was_escape = false;
                    } else {
                        last_was_escape = false;
                        push_char(&mut res, c as char);
                    }
                },
                None => {
                    break;
                },
            }
        }
        self.cursor.reset();
        None
    }

    fn keyword_int(&mut self) -> (r: Option<Token>)
        requires
            old(self).wf(),
        ensures
            final(self).cursor.wf(),
            final(self).buf() == old(self).buf(),
            match r {
                Some(t) => keyword_int_at(old(self).buf(), old(self).pos()) && t@
                    == TokenModel::KeywordInt && final(self).pos() == old(self).pos() + 3 && final(self).wf(),
                None => !keyword_int_at(old(self).buf(), old(self).pos()) && final(self).pos()
                    == old(self).pos() && (final(self).wf() || (final(self).cursor.peek_idx
                    == final(self).cursor.len && old(self).pos() < old(self).buf().len() && old(self).buf()[old(self).pos()] == 105)),
            },
    {
        let c0 = match self.cursor.peek() {
            Some(c) => c,
            None => {
                return None;
            },
        };
        if c0 != 105 {
            self.cursor.reset();
            return None;
        }
        let c1 = match self.cursor.peek() {
            Some(c) => c,
            None => {
                return None;
            },
        };
        if c1 != 110 {
            self.cursor.reset();
            return None;
        }
        let c2 = match self.cursor.peek() {
            Some(c) => c,
            None => {
                return None;
            },
        };
        if c2 != 116 {
            self.cursor.reset();
            return None;
        }
        self.cursor.fwd();
        Some(Token::KeywordInt)
    }

    fn keyword_long(&mut self) -> (r: Option<Token>)
        requires
            old(self).cursor.wf(),
            old(self).cursor.peek_idx == old(self).cursor.idx || old(self).cursor.peek_idx == old(self).cursor.len,
        ensures
            final(self).wf(),
            final(self).buf() == old(self).buf(),
            match r {
                Some(t) => old(self).wf() && keyword_long_at(old(self).buf(), old(self).pos())
                    && t@ == TokenModel::KeywordLong && final(self).pos() == old(self).pos() + 4,
                None => final(self).pos() == old(self).pos() && !(old(self).wf()
                    && keyword_long_at(old(self).buf(), old(self).pos())),
            },
    {
        let c0 = match self.cursor.peek() {
            Some(c) => c,
            None => {
                self.cursor.reset();
                return None;
            },
        };
        if c0 != 108 {
            self.cursor.reset();
            return None;
        }
        let c1 = match self.cursor.peek() {
            Some(c) => c,
            None => {
                self.cursor.reset();
                return None;
            },
        };
        if c1 != 111 {
            self.cursor.reset();
            return None;
        }
        let c2 = match self.cursor.peek() {
            Some(c) => c,
            None => {
                self.cursor.reset();
                return None;
            },
        };
        if c2 != 110 {
            self.cursor.reset();
            return None;
        }
        let c3 = match self.cursor.peek() {
            Some(c) => c,
            None => {
                self.cursor.reset();
                return None;
            },
        };
        if c3 != 103 {
            self.cursor.reset();
            return None;
        }
        self.cursor.fwd();
        Some(Token::KeywordLong)
    }

    fn keyword_void(&mut self) -> (r: Option<Token>)
        requires
            old(self).wf(),
        ensures
            final(self).wf(),
            final(self).buf() == old(self).buf(),
            match r {
                Some(t) => keyword_void_at(old(self).buf(), old(self).pos()) && t@
                    == TokenModel::KeywordVoid && final(self).pos() == old(self).pos() + 4,
                None => final(self).pos() == old(self).pos() && !keyword_void_at(
                    old(self).buf(),
                    old(self).pos(),
                ),
            },
    {
        let c0 = match self.cursor.peek() {
            Some(c) => c,
            None => {
                self.cursor.reset();
                return None;
            },
        };
        if c0 != 118 {
            self.cursor.reset();
            return None;
        }
        let c1 = match self.cursor.peek() {
            Some(c) => c,
            None => {
                self.cursor.reset();
                return None;
            },
        };
        if c1 != 111 {
            self.cursor.reset();
            return None;
        }
        let c2 = match self.cursor.peek() {
            Some(c) => c,
            None => {
                self.cursor.reset();
                return None;
            },
        };
        if c2 != 105 {
            self.cursor.reset();
            return None;
        }
        let c3 = match self.cursor.peek() {
            Some(c) => c,
            None => {
                self.cursor.reset();
                return None;
            },
        };
        if c3 != 100 {
            self.cursor.reset();
            return None;
        }
        self.cursor.fwd();
        Some(Token::KeywordVoid)
    }

    fn identifier(&mut self) -> (r: Option<Token>)
        requires
            old(self).wf(),
        ensures
            final(self).wf(),
            final(self).buf() == old(self).buf(),
            match r {
                Some(t) => ({
                    let b = old(self).buf();
                    let p = old(self).pos();
                    let end = ident_run_end(b, p + 1);
                    p < b.len() && is_identifier_char(b[p]) && t@ == TokenModel::Identifier(
                        ident_chars(b, p, end),
                    ) && final(self).pos() == end
                }),
                None => final(self).pos() == old(self).pos() && !(old(self).pos() < old(self).buf().len() && is_identifier_char(old(self).buf()[old(self).pos()])),
            },
    {
        let ghost b = self.buf();
        let ghost p = self.pos();
        let c = match self.cursor.peek() {
            Some(c) => c,
            None => {
                return None;
            },
        };
        if !is_valid_identifier_character(c) {
            self.cursor.reset();
            return None;
        }
        self.cursor.fwd();
        let mut res = String::new();
        push_char(&mut res, c as char);
        let ghost end = ident_run_end(b, p + 1);
        proof {
            crate::laws::lemma_ident_run_end_bounds(b, p + 1);
            assert(res@ =~= ident_chars(b, p, p + 1));
        }
        loop
            invariant_except_break
                self.wf(),
                self.buf() == b,
                0 <= p < b.len(),
                is_identifier_char(b[p]),
                p + 1 <= self.pos() <= b.len(),
                ident_run_end(b, self.pos()) == end,
                res@ == ident_chars(b, p, self.pos()),
            ensures
                self.cursor.wf(),
                self.buf() == b,
                self.pos() == end,
                res@ == ident_chars(b, p, end),
            decreases b.len() - self.pos(),
        {
            match self.cursor.peek() {
                Some(c2) => {
                    if is_valid_identifier_character(c2) {
                        push_char(&mut res, c2 as char);
                        proof {
                            crate::laws::lemma_ident_run_end_bounds(b, self.pos() + 1);
                        }
                        self.cursor.fwd();
                        proof {
                            assert(res@ =~= ident_chars(b, p, self.pos()));
                        }
                    } else {
                        break;
                    }
                },
                None => {
                    break;
                },
            }
        }
        self.cursor.reset();
        Some(Token::Identifier(res))
    }

    /// Try every rule in the fixed order at the current committed position
    /// and return the first token recognized there, or nothing when no rule
    /// matches — at the end of the input, at an unrecognized byte, and at an
    /// unterminated string literal alike, leaving the position unchanged.
    pub fn get_token(&mut self) -> (r: Option<Token>)
        requires
            old(self).wf(),
        ensures
            final(self).wf(),
            final(self).buf() == old(self).buf(),
            match r {
                Some(t) => next_token(old(self).buf(), old(self).pos()) == Some(
                    (t@, final(self).pos()),
                ),
                None => next_token(old(self).buf(), old(self).pos()) is None && final(self).pos()
                    == old(self).pos(),
            },
    {
        if let Some(t) = self.semicolon() {
            Some(t)
        } else if let Some(t) = self.equals() {
            Some(t)
        } else if let Some(t) = self.minus() {
            Some(t)
        } else if let Some(t) = self.comma() {
            Some(t)
        } else if let Some(t) = self.opening_parenthesis() {
            Some(t)
        } else if let Some(t) = self.closing_parenthesis() {
            Some(t)
        } else if let Some(t) = self.opening_scope() {
            Some(t)
        } else if let Some(t) = self.closing_scope() {
            Some(t)
        } else if let Some(t) = self.whitespace() {
            Some(t)
        } else if let Some(t) = self.uint_literal() {
            Some(t)
        } else if let Some(t) = self.string_literal() {
            Some(t)
        } else if let Some(t) = self.keyword_int() {
            Some(t)
        } else if let Some(t) = self.keyword_long() {
            Some(t)
        } else if let Some(t) = self.keyword_void() {
            Some(t)
        } else if let Some(t) = self.identifier() {
            Some(t)
        } else {
            None
        }
    }
}

} // verus!
