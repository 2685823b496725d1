use front_end::lexer::{do_numbers_fit, tokenize, try_tokenize, Token, TokenIterator};

fn chars(text: &str) -> Vec<char> {
    text.chars().collect()
}

fn start(text: &str) -> TokenIterator {
    try_tokenize(chars(text)).expect("every numeric literal can be held")
}

fn lex(text: &str) -> Vec<Token> {
    let mut tokens = start(text);
    let mut all = Vec::new();
    while let Some(token) = tokens.next() {
        all.push(token);
    }
    assert_eq!(tokens.next(), None);
    all
}

fn identifier(name: &str) -> Token {
    Token::Identifier(name.to_string())
}

fn error(message: &str) -> Token {
    Token::Error(message.to_string())
}

#[test]
fn lettuce_is_one_identifier() {
    assert_eq!(lex("lettuce"), vec![identifier("lettuce")]);
}

#[test]
fn let_is_a_keyword() {
    assert_eq!(lex("let"), vec![Token::Let]);
    let mut tokens = tokenize(chars("let"));
    assert_eq!(tokens.next(), Some(Token::Let));
    assert_eq!(tokens.next(), None);
}

#[test]
fn keywords_win_over_identifiers_of_the_same_text() {
    assert_eq!(
        lex("function let mut if else"),
        vec![Token::Function, Token::Let, Token::Mut, Token::If, Token::Else]
    );
    assert_eq!(
        lex("i8 i16 i32 i64 iptr u8 u16 u32 u64 uptr f32 f64 bool char string"),
        vec![
            Token::I8,
            Token::I16,
            Token::I32,
            Token::I64,
            Token::Iptr,
            Token::U8,
            Token::U16,
            Token::U32,
            Token::U64,
            Token::Uptr,
            Token::F32,
            Token::F64,
            Token::Bool,
            Token::CharType,
            Token::StringType,
        ]
    );
}

#[test]
fn a_keyword_inside_a_longer_name_is_no_keyword() {
    assert_eq!(
        lex("functions i32x mutable iffy"),
        vec![identifier("functions"), identifier("i32x"), identifier("mutable"), identifier("iffy")]
    );
    assert_eq!(lex("i3"), vec![identifier("i3")]);
    assert_eq!(lex("_let"), vec![identifier("_let")]);
}

#[test]
fn every_mark_is_recognized() {
    assert_eq!(
        lex("( ) { } [ ] , . : ; + - * / % -> ="),
        vec![
            Token::LeftParen,
            Token::RightParen,
            Token::LeftBrace,
            Token::RightBrace,
            Token::LeftBracket,
            Token::RightBracket,
            Token::Comma,
            Token::Dot,
            Token::Colon,
            Token::Semicolon,
            Token::Plus,
            Token::Minus,
            Token::Star,
            Token::Slash,
            Token::Percent,
            Token::Arrow,
            Token::Equals,
        ]
    );
}

#[test]
fn arrow_is_longer_than_minus() {
    assert_eq!(lex("->"), vec![Token::Arrow]);
    assert_eq!(lex("->-"), vec![Token::Arrow, Token::Minus]);
    assert_eq!(lex("-->"), vec![Token::Minus, Token::Arrow]);
    assert_eq!(lex("- >x"), vec![Token::Minus, error("Invalid character: >")]);
}

#[test]
fn marks_need_no_whitespace_between_them() {
    assert_eq!(
        lex("(a:i32)->i32{}"),
        vec![
            Token::LeftParen,
            identifier("a"),
            Token::Colon,
            Token::I32,
            Token::RightParen,
            Token::Arrow,
            Token::I32,
            Token::LeftBrace,
            Token::RightBrace,
        ]
    );
}

#[test]
fn round_trip_tokens() {
    assert_eq!(
        lex("function add(a: i32, b: i32) -> i32 { let sum: i32 = 1; }"),
        vec![
            Token::Function,
            identifier("add"),
            Token::LeftParen,
            identifier("a"),
            Token::Colon,
            Token::I32,
            Token::Comma,
            identifier("b"),
            Token::Colon,
            Token::I32,
            Token::RightParen,
            Token::Arrow,
            Token::I32,
            Token::LeftBrace,
            Token::Let,
            identifier("sum"),
            Token::Colon,
            Token::I32,
            Token::Equals,
            Token::Integer(1),
            Token::Semicolon,
            Token::RightBrace,
        ]
    );
}

#[test]
fn round_trip_tokens_with_a_comma_after_the_last_parameter() {
    assert_eq!(
        lex("function add(a: i32, b: i32,) -> i32 { let sum: i32 = 1; }"),
        vec![
            Token::Function,
            identifier("add"),
            Token::LeftParen,
            identifier("a"),
            Token::Colon,
            Token::I32,
            Token::Comma,
            identifier("b"),
            Token::Colon,
            Token::I32,
            Token::Comma,
            Token::RightParen,
            Token::Arrow,
            Token::I32,
            Token::LeftBrace,
            Token::Let,
            identifier("sum"),
            Token::Colon,
            Token::I32,
            Token::Equals,
            Token::Integer(1),
            Token::Semicolon,
            Token::RightBrace,
        ]
    );
}

#[test]
fn at_sign_alone_is_one_error_token() {
    let mut tokens = start("@");
    assert_eq!(tokens.next(), Some(error("Invalid character: @")));
    assert_eq!(tokens.next(), None);
    assert_eq!(tokens.next(), None);
}

#[test]
fn nothing_follows_the_error_token() {
    assert_eq!(lex("let @ let"), vec![Token::Let, error("Invalid character: @")]);
    assert_eq!(lex("1a let"), vec![error("Invalid token: 1a ")]);
}

#[test]
fn an_invalid_token_is_shown_with_the_character_that_ended_it() {
    assert_eq!(lex("12ab+"), vec![error("Invalid token: 12ab+")]);
    assert_eq!(lex("12ab"), vec![error("Invalid token: 12ab")]);
}

#[test]
fn the_last_token_needs_nothing_behind_it() {
    assert_eq!(lex("function 123"), vec![Token::Function, Token::Integer(123)]);
    assert_eq!(lex("function foo("), vec![Token::Function, identifier("foo"), Token::LeftParen]);
    assert_eq!(lex("x"), vec![identifier("x")]);
}

#[test]
fn empty_and_blank_inputs_have_no_tokens() {
    assert_eq!(lex(""), vec![]);
    assert_eq!(lex(" \t\r\n  "), vec![]);
    assert_eq!(lex("\n let \n"), vec![Token::Let]);
}

#[test]
fn whitespace_of_any_kind_separates_tokens() {
    assert_eq!(lex("a\tb\nc\u{a0}d\u{2003}e"), vec![
        identifier("a"),
        identifier("b"),
        identifier("c"),
        identifier("d"),
        identifier("e"),
    ]);
}

#[test]
fn identifiers_may_hold_letters_of_any_script() {
    assert_eq!(lex("größe λx 変数 _x1 __"), vec![
        identifier("größe"),
        identifier("λx"),
        identifier("変数"),
        identifier("_x1"),
        identifier("__"),
    ]);
}

#[test]
fn integers_are_read_by_value() {
    assert_eq!(lex("0 7 42 007"), vec![
        Token::Integer(0),
        Token::Integer(7),
        Token::Integer(42),
        Token::Integer(7),
    ]);
    assert_eq!(
        lex("170141183460469231731687303715884105727"),
        vec![Token::Integer(i128::MAX)]
    );
}

#[test]
fn an_integer_beyond_i128_cannot_be_held() {
    let too_large = "170141183460469231731687303715884105728";
    assert!(!do_numbers_fit(&chars(too_large)));
    assert!(try_tokenize(chars(too_large)).is_none());
    assert!(!do_numbers_fit(&chars("let x = 999999999999999999999999999999999999999999;")));
    assert!(do_numbers_fit(&chars("170141183460469231731687303715884105727")));
}

#[test]
fn a_numeric_character_that_is_no_ascii_digit_cannot_be_held() {
    assert!(!do_numbers_fit(&chars("let x = ٣;")));
    assert!(!do_numbers_fit(&chars("1.٣")));
    assert!(try_tokenize(chars("²")).is_none());
}

#[test]
fn literals_behind_an_error_are_not_looked_at() {
    assert!(do_numbers_fit(&chars("@ 999999999999999999999999999999999999999999")));
    assert_eq!(
        lex("@ 999999999999999999999999999999999999999999"),
        vec![error("Invalid character: @")]
    );
}

#[test]
fn numeric_characters_inside_names_and_strings_are_no_literals() {
    assert!(do_numbers_fit(&chars("x٣ \"٣\"")));
    assert_eq!(lex("x٣"), vec![identifier("x٣")]);
}

#[test]
fn floats_keep_their_text() {
    assert_eq!(lex("1.5"), vec![Token::Float("1.5".to_string())]);
    assert_eq!(lex("1."), vec![Token::Float("1.".to_string())]);
    assert_eq!(lex(".5"), vec![Token::Float(".5".to_string())]);
    assert_eq!(lex("10.250"), vec![Token::Float("10.250".to_string())]);
    assert_eq!(lex("1.5").iter().map(|t| match t {
        Token::Float(text) => text.parse::<f64>().unwrap(),
        _ => panic!("no float"),
    }).collect::<Vec<f64>>(), vec![1.5]);
}

#[test]
fn a_float_has_one_point_only() {
    assert_eq!(
        lex("1.2.3"),
        vec![Token::Float("1.2".to_string()), Token::Float(".3".to_string())]
    );
    assert_eq!(lex("1..2"), vec![Token::Float("1.".to_string()), Token::Float(".2".to_string())]);
}

#[test]
fn a_point_alone_is_a_dot() {
    assert_eq!(lex("."), vec![Token::Dot]);
    assert_eq!(lex("a.b"), vec![identifier("a"), Token::Dot, identifier("b")]);
    assert_eq!(lex(". ."), vec![Token::Dot, Token::Dot]);
}

#[test]
fn macro_calls_end_with_a_bang() {
    assert_eq!(lex("print!"), vec![Token::MacroCall("print".to_string())]);
    assert_eq!(lex("print!("), vec![Token::MacroCall("print".to_string()), Token::LeftParen]);
    assert_eq!(lex("1a!"), vec![Token::MacroCall("1a".to_string())]);
    assert_eq!(lex("!"), vec![Token::MacroCall(String::new())]);
    assert_eq!(lex("a!!"), vec![
        Token::MacroCall("a".to_string()),
        Token::MacroCall(String::new()),
    ]);
}

#[test]
fn string_literals_keep_their_text_as_written() {
    assert_eq!(lex("\"hello\""), vec![Token::StringLiteral("hello".to_string())]);
    assert_eq!(lex("\"\""), vec![Token::StringLiteral(String::new())]);
    assert_eq!(lex("\"a b\tc\""), vec![Token::StringLiteral("a b\tc".to_string())]);
    assert_eq!(lex("\"a\\nb\""), vec![Token::StringLiteral("a\\nb".to_string())]);
}

#[test]
fn an_escaped_quote_does_not_end_a_string() {
    assert_eq!(lex("\"a\\\"b\""), vec![Token::StringLiteral("a\\\"b".to_string())]);
    assert_eq!(lex("\"\\\"\""), vec![Token::StringLiteral("\\\"".to_string())]);
}

#[test]
fn an_escaped_backslash_escapes_nothing() {
    assert_eq!(lex("\"a\\\\\""), vec![Token::StringLiteral("a\\\\".to_string())]);
    assert_eq!(
        lex("\"a\\\\\" x"),
        vec![Token::StringLiteral("a\\\\".to_string()), identifier("x")]
    );
    assert_eq!(lex("\"\\\\\\\"\""), vec![Token::StringLiteral("\\\\\\\"".to_string())]);
}

#[test]
fn a_string_that_is_not_closed_is_invalid() {
    assert_eq!(lex("\"abc"), vec![error("Invalid token: \"abc")]);
    assert_eq!(lex("\"abc\\\""), vec![error("Invalid token: \"abc\\\"")]);
}

#[test]
fn strings_end_at_their_closing_quote() {
    assert_eq!(
        lex("\"a\"\"b\""),
        vec![Token::StringLiteral("a".to_string()), Token::StringLiteral("b".to_string())]
    );
    assert_eq!(lex("\"a\"b"), vec![Token::StringLiteral("a".to_string()), identifier("b")]);
}

#[test]
fn peek_shows_the_next_token_and_leaves_it() {
    let mut tokens = start("let x");
    assert_eq!(tokens.peek(), Some(&Token::Let));
    assert_eq!(tokens.peek(), Some(&Token::Let));
    assert_eq!(tokens.next(), Some(Token::Let));
    assert_eq!(tokens.peek(), Some(&identifier("x")));
    assert_eq!(tokens.next(), Some(identifier("x")));
    assert_eq!(tokens.peek(), None);
    assert_eq!(tokens.next(), None);
    assert_eq!(tokens.peek(), None);
}

#[test]
fn peek_at_the_error_token() {
    let mut tokens = start("# x");
    assert_eq!(tokens.peek(), Some(&error("Invalid character: #")));
    assert_eq!(tokens.next(), Some(error("Invalid character: #")));
    assert_eq!(tokens.peek(), None);
    assert_eq!(tokens.next(), None);
}

#[test]
fn the_texts_of_the_tokens_make_up_the_input() {
    let input = "function  f ( ) -> i32 {\n\t12 ; \"a b\" x! 1.5 }";
    let texts = ["function", "f", "(", ")", "->", "i32", "{", "12", ";", "\"a b\"", "x!", "1.5", "}"];
    let tokens = lex(input);
    assert_eq!(tokens.len(), texts.len());
    for (token, text) in tokens.iter().zip(texts.iter()) {
        assert_eq!(lex(text), vec![token.clone()]);
    }
    let mut rest = input;
    for text in texts.iter() {
        rest = rest.trim_start();
        assert!(rest.starts_with(text));
        rest = &rest[text.len()..];
    }
    assert_eq!(rest.trim_start(), "");
}

#[test]
fn no_token_is_the_beginning_of_a_longer_one() {
    assert_eq!(lex("letx"), vec![identifier("letx")]);
    assert_eq!(lex("12.5"), vec![Token::Float("12.5".to_string())]);
    assert_eq!(lex("i64"), vec![Token::I64]);
    assert_eq!(lex("i6"), vec![identifier("i6")]);
    assert_eq!(lex("string!"), vec![Token::MacroCall("string".to_string())]);
}
