use clex::lexer::Lexer;
use clex::token::{Token, Whitespace};

fn tokens(input: &str) -> Vec<Token> {
    let bytes = input.as_bytes().to_vec();
    let n = bytes.len();
    let mut lx = Lexer::new(bytes, 0, n);
    let mut out = Vec::new();
    while let Some(t) = lx.get_token() {
        out.push(t);
    }
    out
}

fn ident(s: &str) -> Token {
    Token::Identifier(String::from(s))
}

fn string_lit(s: &str) -> Token {
    Token::StringLiteral(String::from(s))
}

fn spelling(t: &Token) -> String {
    match t {
        Token::StringLiteral(_) => panic!("string spellings are not unique"),
        Token::UIntLiteral(v) => format!("{}", v),
        Token::Semicolon => String::from(";"),
        Token::Equals => String::from("="),
        Token::Whitespace(Whitespace::Space) => String::from(" "),
        Token::Whitespace(Whitespace::Tab) => String::from("\t"),
        Token::Whitespace(Whitespace::Newline) => String::from("\n"),
        Token::Minus => String::from("-"),
        Token::Identifier(s) => s.clone(),
        Token::KeywordInt => String::from("int"),
        Token::KeywordLong => String::from("long"),
        Token::KeywordVoid => String::from("void"),
        Token::OpeningScope => String::from("{"),
        Token::ClosingScope => String::from("}"),
        Token::Comma => String::from(","),
        Token::OpeningParenthesis => String::from("("),
        Token::ClosingParenthesis => String::from(")"),
    }
}

#[test]
fn empty_input_yields_no_token() {
    assert_eq!(tokens(""), vec![]);
}

#[test]
fn single_punctuation_tokens() {
    assert_eq!(
        tokens(";=-,(){}"),
        vec![
            Token::Semicolon,
            Token::Equals,
            Token::Minus,
            Token::Comma,
            Token::OpeningParenthesis,
            Token::ClosingParenthesis,
            Token::OpeningScope,
            Token::ClosingScope,
        ]
    );
}

#[test]
fn uint_literal_simple() {
    assert_eq!(tokens("5"), vec![Token::UIntLiteral(5)]);
    assert_eq!(tokens("123"), vec![Token::UIntLiteral(123)]);
    assert_eq!(tokens("0"), vec![Token::UIntLiteral(0)]);
}

#[test]
fn uint_literal_with_underscores() {
    assert_eq!(tokens("1_000_000"), vec![Token::UIntLiteral(1_000_000)]);
    assert_eq!(tokens("1_2_3"), vec![Token::UIntLiteral(123)]);
    assert_eq!(tokens("7_"), vec![Token::UIntLiteral(7)]);
}

#[test]
fn uint_literal_stops_at_non_digit() {
    assert_eq!(
        tokens("42;"),
        vec![Token::UIntLiteral(42), Token::Semicolon]
    );
    assert_eq!(tokens("1a"), vec![Token::UIntLiteral(1), ident("a")]);
}

#[test]
fn uint_literal_largest_value() {
    assert_eq!(
        tokens("18446744073709551615"),
        vec![Token::UIntLiteral(u64::MAX)]
    );
}

#[test]
fn uint_literal_wraps_on_overflow() {
    // One past u64::MAX: the accumulation wraps silently by design.
    assert_eq!(tokens("18446744073709551616"), vec![Token::UIntLiteral(0)]);
}

#[test]
fn underscore_starts_identifier_not_number() {
    assert_eq!(tokens("_12"), vec![ident("_"), Token::UIntLiteral(12)]);
}

#[test]
fn string_literal_plain() {
    assert_eq!(tokens("\"abc\""), vec![string_lit("abc")]);
    assert_eq!(tokens("\"\""), vec![string_lit("")]);
}

#[test]
fn string_literal_decodes_escapes() {
    assert_eq!(tokens("\"a\\nb\""), vec![string_lit("a\nb")]);
    assert_eq!(tokens("\"a\\tb\""), vec![string_lit("a\tb")]);
    assert_eq!(tokens("\"a\\\\b\""), vec![string_lit("a\\b")]);
    assert_eq!(tokens("\"a\\\"b\""), vec![string_lit("a\"b")]);
}

#[test]
fn string_literal_unknown_escape_drops_backslash() {
    assert_eq!(tokens("\"a\\xb\""), vec![string_lit("axb")]);
}

#[test]
fn string_literal_unescaped_n_and_t_are_plain() {
    assert_eq!(tokens("\"nt\""), vec![string_lit("nt")]);
}

#[test]
fn string_literal_cursor_stops_past_closing_quote() {
    assert_eq!(
        tokens("\"hi\";"),
        vec![string_lit("hi"), Token::Semicolon]
    );
}

#[test]
fn whitespace_one_token_per_character() {
    assert_eq!(
        tokens("  "),
        vec![
            Token::Whitespace(Whitespace::Space),
            Token::Whitespace(Whitespace::Space),
        ]
    );
    assert_eq!(
        tokens("\t\n"),
        vec![
            Token::Whitespace(Whitespace::Tab),
            Token::Whitespace(Whitespace::Newline),
        ]
    );
}

#[test]
fn keyword_identifier_boundary_with_space() {
    assert_eq!(
        tokens("int x;"),
        vec![
            Token::KeywordInt,
            Token::Whitespace(Whitespace::Space),
            ident("x"),
            Token::Semicolon,
        ]
    );
}

#[test]
fn keyword_wins_without_boundary_check() {
    // The keyword rules run before the identifier rule and perform no
    // word-boundary check, so `intx` lexes as `int` then `x` by design.
    assert_eq!(
        tokens("intx;"),
        vec![Token::KeywordInt, ident("x"), Token::Semicolon]
    );
}

#[test]
fn keywords_long_and_void() {
    assert_eq!(
        tokens("long void"),
        vec![
            Token::KeywordLong,
            Token::Whitespace(Whitespace::Space),
            Token::KeywordVoid,
        ]
    );
}

#[test]
fn keyword_prefix_at_end_is_identifier() {
    assert_eq!(tokens("in"), vec![ident("in")]);
    assert_eq!(tokens("lon"), vec![ident("lon")]);
    assert_eq!(tokens("vo"), vec![ident("vo")]);
}

#[test]
fn identifier_rejects_digits() {
    assert_eq!(tokens("ab1"), vec![ident("ab"), Token::UIntLiteral(1)]);
}

#[test]
fn identifier_with_underscore_and_case() {
    assert_eq!(tokens("a_B_z"), vec![ident("a_B_z")]);
}

#[test]
fn unterminated_string_yields_nothing_and_is_idempotent() {
    let bytes = b"\"abc".to_vec();
    let n = bytes.len();
    let mut lx = Lexer::new(bytes, 0, n);
    assert_eq!(lx.get_token(), None);
    // The committed position is unchanged by the failed attempt, so a
    // second call fails the same way.
    assert_eq!(lx.get_token(), None);
}

#[test]
fn unterminated_string_after_tokens() {
    assert_eq!(
        tokens("; \"abc"),
        vec![Token::Semicolon, Token::Whitespace(Whitespace::Space)]
    );
}

#[test]
fn unrecognized_byte_yields_nothing() {
    assert_eq!(tokens("#"), vec![]);
    assert_eq!(tokens("x#y"), vec![ident("x")]);
}

#[test]
fn lexer_honours_start_index_and_length() {
    let bytes = b"abc;".to_vec();
    let mut lx = Lexer::new(bytes, 3, 4);
    assert_eq!(lx.get_token(), Some(Token::Semicolon));
    assert_eq!(lx.get_token(), None);

    let bytes = b"ab12".to_vec();
    let mut lx = Lexer::new(bytes, 0, 2);
    assert_eq!(lx.get_token(), Some(ident("ab")));
    assert_eq!(lx.get_token(), None);
}

#[test]
fn spellings_reconstruct_consumed_input() {
    let input = "void main ( ) { int x = 5 ; }";
    let toks = tokens(input);
    let mut rebuilt = String::new();
    for t in &toks {
        rebuilt.push_str(&spelling(t));
    }
    assert_eq!(rebuilt, input);
}

#[test]
fn end_to_end_token_sequence() {
    let sp = Token::Whitespace(Whitespace::Space);
    assert_eq!(
        tokens("void main ( ) { int x = 5 ; }"),
        vec![
            Token::KeywordVoid,
            sp.clone(),
            ident("main"),
            sp.clone(),
            Token::OpeningParenthesis,
            sp.clone(),
            Token::ClosingParenthesis,
            sp.clone(),
            Token::OpeningScope,
            sp.clone(),
            Token::KeywordInt,
            sp.clone(),
            ident("x"),
            sp.clone(),
            Token::Equals,
            sp.clone(),
            Token::UIntLiteral(5),
            sp.clone(),
            Token::Semicolon,
            sp.clone(),
            Token::ClosingScope,
        ]
    );
}
