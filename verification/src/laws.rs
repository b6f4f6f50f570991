//! Proof library: facts about the spec tokenizer in [`crate::model`],
//! from small bounds lemmas up to the laws the lexer is known by — the
//! shape of integer literals, decoding of well-formed string literals,
//! and the round trip from a token back to the bytes it consumed.

use vstd::prelude::*;
use crate::model::{
    STRING_BRACKET, ESCAPE, is_digit, is_num_char, is_identifier_char, punct_token,
    whitespace_token, num_run_end, uint_step, uint_acc, digits_value_acc, digits_value,
    string_scan, keyword_int_at, keyword_long_at, keyword_void_at, ident_run_end, ident_chars,
    next_token, spells, escape_byte, escape_encode, chars_of,
};
use crate::token::TokenModel;

verus! {

/// A digit/underscore run never moves backwards and ends inside the buffer.
pub proof fn lemma_num_run_end_bounds(buf: Seq<u8>, i: int)
    requires
        0 <= i <= buf.len(),
    ensures
        i <= num_run_end(buf, i) <= buf.len(),
    decreases buf.len() - i,
{
    if i < buf.len() && is_num_char(buf[i]) {
        lemma_num_run_end_bounds(buf, i + 1);
    }
}

/// An identifier run never moves backwards and ends inside the buffer.
pub proof fn lemma_ident_run_end_bounds(buf: Seq<u8>, i: int)
    requires
        0 <= i <= buf.len(),
    ensures
        i <= ident_run_end(buf, i) <= buf.len(),
    decreases buf.len() - i,
{
    if i < buf.len() && is_identifier_char(buf[i]) {
        lemma_ident_run_end_bounds(buf, i + 1);
    }
}

/// Every byte inside a digit/underscore run is a digit or an underscore,
/// and the run stops at the buffer end or at the first byte that is
/// neither.
pub proof fn lemma_num_run_chars(buf: Seq<u8>, i: int)
    requires
        0 <= i <= buf.len(),
    ensures
        forall|k: int| i <= k < num_run_end(buf, i) ==> is_num_char(buf[k]),
        num_run_end(buf, i) < buf.len() ==> !is_num_char(buf[num_run_end(buf, i)]),
    decreases buf.len() - i,
{
    if i < buf.len() && is_num_char(buf[i]) {
        lemma_num_run_chars(buf, i + 1);
    }
}

/// A buffer made of digit/underscore bytes from `i` on is scanned to its
/// end.
pub proof fn lemma_num_run_full(buf: Seq<u8>, i: int)
    requires
        0 <= i <= buf.len(),
        forall|k: int| i <= k < buf.len() ==> is_num_char(buf[k]),
    ensures
        num_run_end(buf, i) == buf.len(),
    decreases buf.len() - i,
{
    if i < buf.len() {
        lemma_num_run_full(buf, i + 1);
    }
}

/// Every byte inside an identifier run is a letter or an underscore, and
/// the run stops at the buffer end or at the first byte that is neither.
pub proof fn lemma_ident_run_chars(buf: Seq<u8>, i: int)
    requires
        0 <= i <= buf.len(),
    ensures
        forall|k: int| i <= k < ident_run_end(buf, i) ==> is_identifier_char(buf[k]),
        ident_run_end(buf, i) < buf.len() ==> !is_identifier_char(buf[ident_run_end(buf, i)]),
    decreases buf.len() - i,
{
    if i < buf.len() && is_identifier_char(buf[i]) {
        lemma_ident_run_chars(buf, i + 1);
    }
}

/// Wrapping accumulation is exact accumulation reduced modulo 2^64.
pub proof fn lemma_uint_acc_mod(buf: Seq<u8>, i: int, end: int, acc: u64, n: nat)
    requires
        acc == n % 0x1_0000_0000_0000_0000,
    ensures
        uint_acc(buf, i, end, acc) == digits_value_acc(buf, i, end, n) % 0x1_0000_0000_0000_0000,
    decreases end - i,
{
    if i < end {
        if is_digit(buf[i]) {
            let m: int = 0x1_0000_0000_0000_0000;
            let d: int = buf[i] - 48;
            vstd::arithmetic::div_mod::lemma_mul_mod_noop_left(n as int, 10, m);
            vstd::arithmetic::div_mod::lemma_add_mod_noop(acc as int * 10, d, m);
            vstd::arithmetic::div_mod::lemma_add_mod_noop(n as int * 10, d, m);
            assert(uint_step(acc, buf[i]) == (n * 10 + d) % m);
            lemma_uint_acc_mod(buf, i + 1, end, uint_step(acc, buf[i]), (n * 10 + d) as nat);
        } else {
            lemma_uint_acc_mod(buf, i + 1, end, acc, n);
        }
    }
}

/// A digit sequence, optionally broken by underscores, lexes as a single
/// unsigned integer literal whose value is the digit string with the
/// underscores removed, whenever that value fits in 64 bits. The whole run
/// is consumed, and the next call sees the end of the input.
pub proof fn lemma_uint_literal_token(buf: Seq<u8>)
    requires
        buf.len() > 0,
        is_digit(buf[0]),
        forall|k: int| 0 <= k < buf.len() ==> is_num_char(buf[k]),
        digits_value(buf, 0, buf.len() as int) < 0x1_0000_0000_0000_0000,
    ensures
        next_token(buf, 0) == Some(
            (
                TokenModel::UIntLiteral(digits_value(buf, 0, buf.len() as int) as u64),
                buf.len() as int,
            ),
        ),
        next_token(buf, buf.len() as int) is None,
{
    let len = buf.len() as int;
    lemma_num_run_full(buf, 1);
    let d = (buf[0] - 48) as nat;
    vstd::arithmetic::div_mod::lemma_small_mod(d, 0x1_0000_0000_0000_0000);
    lemma_uint_acc_mod(buf, 1, len, (buf[0] - 48) as u64, d);
    assert(digits_value_acc(buf, 0, len, 0) == digits_value_acc(buf, 1, len, d));
    vstd::arithmetic::div_mod::lemma_small_mod(
        digits_value(buf, 0, len),
        0x1_0000_0000_0000_0000,
    );
}

/// A successful string scan stops strictly after where it started, inside
/// the buffer, and the byte just before its end is the closing quote.
pub proof fn lemma_string_scan_end(
    buf: Seq<u8>,
    i: int,
    pending: bool,
    acc: Seq<char>,
    s: Seq<char>,
    end: int,
)
    requires
        0 <= i,
        string_scan(buf, i, pending, acc) == Some((s, end)),
    ensures
        i < end <= buf.len(),
        buf[end - 1] == STRING_BRACKET,
    decreases buf.len() - i,
{
    let c = buf[i];
    if c == ESCAPE {
        if pending {
            lemma_string_scan_end(buf, i + 1, false, acc.push(ESCAPE as char), s, end);
        } else {
            lemma_string_scan_end(buf, i + 1, true, acc, s, end);
        }
    } else if c == STRING_BRACKET {
        if pending {
            lemma_string_scan_end(buf, i + 1, false, acc.push(STRING_BRACKET as char), s, end);
        }
    } else if c == 110 && pending {
        lemma_string_scan_end(buf, i + 1, false, acc.push(10u8 as char), s, end);
    } else if c == 116 && pending {
        lemma_string_scan_end(buf, i + 1, false, acc.push(9u8 as char), s, end);
    } else {
        lemma_string_scan_end(buf, i + 1, false, acc.push(c as char), s, end);
    }
}

/// At an opening quote whose literal is terminated, the lexer returns
/// exactly one string token carrying the fully decoded text, and stops
/// just past the closing quote.
pub proof fn lemma_string_literal_token(buf: Seq<u8>, pos: int, s: Seq<char>, end: int)
    requires
        0 <= pos < buf.len(),
        buf[pos] == STRING_BRACKET,
        string_scan(buf, pos + 1, false, Seq::empty()) == Some((s, end)),
    ensures
        next_token(buf, pos) == Some((TokenModel::StringLiteral(s), end)),
        pos + 1 < end <= buf.len(),
        buf[end - 1] == STRING_BRACKET,
{
    lemma_string_scan_end(buf, pos + 1, false, Seq::empty(), s, end);
}

/// Accumulating over a slice of the buffer is accumulating over the buffer
/// itself.
pub proof fn lemma_uint_acc_shift(buf: Seq<u8>, pos: int, end: int, i: int, acc: u64)
    requires
        0 <= pos <= i <= end <= buf.len(),
    ensures
        uint_acc(buf.subrange(pos, end), i - pos, end - pos, acc) == uint_acc(buf, i, end, acc),
    decreases end - i,
{
    if i < end {
        if is_digit(buf[i]) {
            lemma_uint_acc_shift(buf, pos, end, i + 1, uint_step(acc, buf[i]));
        } else {
            lemma_uint_acc_shift(buf, pos, end, i + 1, acc);
        }
    }
}

/// Scanning a slice that holds exactly the quoted literal decodes the same
/// text as scanning the buffer itself.
pub proof fn lemma_string_scan_shift(
    buf: Seq<u8>,
    pos: int,
    i: int,
    pending: bool,
    acc: Seq<char>,
    s: Seq<char>,
    end: int,
)
    requires
        0 <= pos <= i,
        string_scan(buf, i, pending, acc) == Some((s, end)),
    ensures
        string_scan(buf.subrange(pos, end), i - pos, pending, acc) == Some((s, end - pos)),
    decreases buf.len() - i,
{
    lemma_string_scan_end(buf, i, pending, acc, s, end);
    let c = buf[i];
    if c == ESCAPE {
        if pending {
            lemma_string_scan_shift(buf, pos, i + 1, false, acc.push(ESCAPE as char), s, end);
        } else {
            lemma_string_scan_shift(buf, pos, i + 1, true, acc, s, end);
        }
    } else if c == STRING_BRACKET {
        if pending {
            lemma_string_scan_shift(
                buf,
                pos,
                i + 1,
                false,
                acc.push(STRING_BRACKET as char),
                s,
                end,
            );
        }
    } else if c == 110 && pending {
        lemma_string_scan_shift(buf, pos, i + 1, false, acc.push(10u8 as char), s, end);
    } else if c == 116 && pending {
        lemma_string_scan_shift(buf, pos, i + 1, false, acc.push(9u8 as char), s, end);
    } else {
        lemma_string_scan_shift(buf, pos, i + 1, false, acc.push(c as char), s, end);
    }
}

/// Round trip: the bytes a successful match consumes are a source spelling
/// of the token it returns. Tokens consume contiguous slices, so
/// concatenating the spellings implied by a token sequence rebuilds the
/// consumed part of the input byte for byte.
pub proof fn lemma_token_spelling(buf: Seq<u8>, pos: int, t: TokenModel, end: int)
    requires
        next_token(buf, pos) == Some((t, end)),
    ensures
        0 <= pos < end <= buf.len(),
        spells(t, buf.subrange(pos, end)),
{
    let c = buf[pos];
    if punct_token(c) is Some || whitespace_token(c) is Some {
        assert(buf.subrange(pos, end) =~= seq![c]);
    } else if is_digit(c) {
        let e = num_run_end(buf, pos + 1);
        lemma_num_run_end_bounds(buf, pos + 1);
        lemma_num_run_chars(buf, pos + 1);
        lemma_uint_acc_shift(buf, pos, e, pos + 1, (c - 48) as u64);
        let sub = buf.subrange(pos, e);
        assert forall|k: int| 0 <= k < sub.len() implies is_num_char(sub[k]) by {
            assert(sub[k] == buf[pos + k]);
        }
    } else if c == STRING_BRACKET {
        let scanned = string_scan(buf, pos + 1, false, Seq::empty());
        let s = scanned->Some_0.0;
        lemma_string_scan_end(buf, pos + 1, false, Seq::empty(), s, end);
        lemma_string_scan_shift(buf, pos, pos + 1, false, Seq::empty(), s, end);
        assert(buf.subrange(pos, end)[0] == STRING_BRACKET);
    } else if keyword_int_at(buf, pos) {
        assert(buf.subrange(pos, end) =~= seq![105u8, 110u8, 116u8]);
    } else if keyword_long_at(buf, pos) {
        assert(buf.subrange(pos, end) =~= seq![108u8, 111u8, 110u8, 103u8]);
    } else if keyword_void_at(buf, pos) {
        assert(buf.subrange(pos, end) =~= seq![118u8, 111u8, 105u8, 100u8]);
    } else {
        let e = ident_run_end(buf, pos + 1);
        lemma_ident_run_end_bounds(buf, pos + 1);
        lemma_ident_run_chars(buf, pos + 1);
        let sub = buf.subrange(pos, e);
        assert forall|k: int| 0 <= k < sub.len() implies is_identifier_char(sub[k]) by {
            assert(sub[k] == buf[pos + k]);
        }
        assert(ident_chars(sub, 0, sub.len() as int) =~= ident_chars(buf, pos, e));
    }
}

/// Scanning the canonical encoding of any content bytes decodes them
/// character for character and stops just past the closing quote that
/// follows the encoding.
pub proof fn lemma_escape_encode_scan(buf: Seq<u8>, i: int, cs: Seq<u8>, acc: Seq<char>)
    requires
        0 <= i,
        i + escape_encode(cs).len() + 1 <= buf.len(),
        buf.subrange(i, i + escape_encode(cs).len() as int) == escape_encode(cs),
        buf[i + escape_encode(cs).len()] == STRING_BRACKET,
    ensures
        string_scan(buf, i, false, acc) == Some(
            (acc + chars_of(cs), i + escape_encode(cs).len() + 1),
        ),
    decreases cs.len(),
{
    let enc = escape_encode(cs);
    if cs.len() == 0 {
        assert(acc + chars_of(cs) =~= acc);
    } else {
        let b = cs[0];
        let rest = cs.skip(1);
        let renc = escape_encode(rest);
        let head = escape_byte(b);
        let hl = head.len() as int;
        let sub = buf.subrange(i, i + enc.len() as int);
        assert(enc =~= head + renc);
        assert forall|k: int| 0 <= k < renc.len() implies buf.subrange(
            i + hl,
            i + hl + renc.len() as int,
        )[k] == renc[k] by {
            assert(sub[hl + k] == buf[i + hl + k]);
            assert(buf.subrange(i + hl, i + hl + renc.len() as int)[k] == buf[(i + hl) + k]);
            assert(enc[hl + k] == renc[k]);
        }
        assert(buf.subrange(i + hl, i + hl + renc.len() as int) =~= renc);
        assert(acc + chars_of(cs) =~= acc.push(b as char) + chars_of(rest));
        if b == ESCAPE {
            assert(sub[0] == buf[i] && sub[1] == buf[i + 1]);
            assert(enc[0] == ESCAPE && enc[1] == ESCAPE);
            lemma_escape_encode_scan(buf, i + 2, rest, acc.push(ESCAPE as char));
            assert(string_scan(buf, i, false, acc) == string_scan(buf, i + 1, true, acc));
            assert(string_scan(buf, i + 1, true, acc) == string_scan(
                buf,
                i + 2,
                false,
                acc.push(ESCAPE as char),
            ));
        } else if b == STRING_BRACKET {
            assert(sub[0] == buf[i] && sub[1] == buf[i + 1]);
            assert(enc[0] == ESCAPE && enc[1] == STRING_BRACKET);
            lemma_escape_encode_scan(buf, i + 2, rest, acc.push(STRING_BRACKET as char));
            assert(string_scan(buf, i, false, acc) == string_scan(buf, i + 1, true, acc));
            assert(string_scan(buf, i + 1, true, acc) == string_scan(
                buf,
                i + 2,
                false,
                acc.push(STRING_BRACKET as char),
            ));
        } else {
            assert(sub[0] == buf[i]);
            assert(enc[0] == b);
            lemma_escape_encode_scan(buf, i + 1, rest, acc.push(b as char));
            assert(string_scan(buf, i, false, acc) == string_scan(
                buf,
                i + 1,
                false,
                acc.push(b as char),
            ));
        }
    }
}

/// Any well-formed quoted string lexes as exactly one string literal: at
/// an opening quote followed by the canonical encoding of arbitrary
/// content bytes and a closing quote, the lexer returns the fully decoded
/// text and stops just past the closing quote.
pub proof fn lemma_quoted_string_token(buf: Seq<u8>, pos: int, cs: Seq<u8>)
    requires
        0 <= pos < buf.len(),
        buf[pos] == STRING_BRACKET,
        pos + 1 + escape_encode(cs).len() + 1 <= buf.len(),
        buf.subrange(pos + 1, pos + 1 + escape_encode(cs).len() as int) == escape_encode(cs),
        buf[pos + 1 + escape_encode(cs).len()] == STRING_BRACKET,
    ensures
        next_token(buf, pos) == Some(
            (TokenModel::StringLiteral(chars_of(cs)), pos + 2 + escape_encode(cs).len()),
        ),
{
    lemma_escape_encode_scan(buf, pos + 1, cs, Seq::empty());
    assert(Seq::<char>::empty() + chars_of(cs) =~= chars_of(cs));
}

} // verus!
