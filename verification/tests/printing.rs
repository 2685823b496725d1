use front_end::lexer::Token;
use front_end::parser::SyntaxError;

#[test]
fn tokens_with_a_text_are_shown_in_single_quotes() {
    assert_eq!(Token::Identifier("sum".to_string()).to_string(), "'sum'");
    assert_eq!(Token::MacroCall("print".to_string()).to_string(), "'print!'");
    assert_eq!(Token::Float("1.5".to_string()).to_string(), "'1.5'");
    assert_eq!(Token::StringLiteral("a b".to_string()).to_string(), "'\"a b\"'");
    assert_eq!(Token::Error("Invalid character: @".to_string()).to_string(), "'Invalid character: @'");
    assert_eq!(Token::Identifier(String::new()).to_string(), "''");
}

#[test]
fn a_character_is_shown_in_both_kinds_of_quotes() {
    assert_eq!(Token::Char('x').to_string(), "\"'x'\"");
}

#[test]
fn integers_are_shown_in_decimal() {
    assert_eq!(Token::Integer(0).to_string(), "'0'");
    assert_eq!(Token::Integer(7).to_string(), "'7'");
    assert_eq!(Token::Integer(10).to_string(), "'10'");
    assert_eq!(Token::Integer(1234567890).to_string(), "'1234567890'");
    assert_eq!(Token::Integer(-1).to_string(), "'-1'");
    assert_eq!(Token::Integer(-305).to_string(), "'-305'");
    assert_eq!(Token::Integer(i128::MAX).to_string(), format!("'{}'", i128::MAX));
    assert_eq!(Token::Integer(i128::MIN).to_string(), format!("'{}'", i128::MIN));
    assert_eq!(
        Token::Integer(i128::MIN).to_string(),
        "'-170141183460469231731687303715884105728'"
    );
}

#[test]
fn fixed_tokens_are_shown_by_their_text() {
    let shown = [
        (Token::LeftParen, "'('"),
        (Token::RightParen, "')'"),
        (Token::LeftBrace, "'{'"),
        (Token::RightBrace, "'}'"),
        (Token::LeftBracket, "'['"),
        (Token::RightBracket, "']'"),
        (Token::Comma, "','"),
        (Token::Dot, "'.'"),
        (Token::Colon, "':'"),
        (Token::Semicolon, "';'"),
        (Token::Plus, "'+'"),
        (Token::Minus, "'-'"),
        (Token::Star, "'*'"),
        (Token::Slash, "'/'"),
        (Token::Percent, "'%'"),
        (Token::Arrow, "'->'"),
        (Token::Equals, "'='"),
        (Token::Function, "'function'"),
        (Token::Let, "'let'"),
        (Token::Mut, "'mut'"),
        (Token::If, "'if'"),
        (Token::Else, "'else'"),
        (Token::I8, "'i8'"),
        (Token::I16, "'i16'"),
        (Token::I32, "'i32'"),
        (Token::I64, "'i64'"),
        (Token::Iptr, "'iptr'"),
        (Token::U8, "'u8'"),
        (Token::U16, "'u16'"),
        (Token::U32, "'u32'"),
        (Token::U64, "'u64'"),
        (Token::Uptr, "'uptr'"),
        (Token::F32, "'f32'"),
        (Token::F64, "'f64'"),
        (Token::Bool, "'bool'"),
        (Token::CharType, "'char'"),
        (Token::StringType, "'string'"),
    ];
    for (token, text) in shown.iter() {
        assert_eq!(token.to_string(), *text);
    }
}

#[test]
fn same_compares_by_value() {
    assert!(Token::Let.same(&Token::Let));
    assert!(!Token::Let.same(&Token::Mut));
    assert!(Token::Identifier("a".to_string()).same(&Token::Identifier("a".to_string())));
    assert!(!Token::Identifier("a".to_string()).same(&Token::Identifier("b".to_string())));
    assert!(!Token::Identifier("a".to_string()).same(&Token::MacroCall("a".to_string())));
    assert!(Token::Integer(3).same(&Token::Integer(3)));
    assert!(!Token::Integer(3).same(&Token::Integer(4)));
    assert!(!Token::Float("3".to_string()).same(&Token::Integer(3)));
    assert!(Token::Char('c').same(&Token::Char('c')));
    assert!(!Token::Error("x".to_string()).same(&Token::StringLiteral("x".to_string())));
}

#[test]
fn a_copy_of_a_token_is_equal_and_independent() {
    let source = Token::Identifier("name".to_string());
    let mut copy = source.clone();
    assert_eq!(copy, source);
    if let Token::Identifier(text) = &mut copy {
        text.push('x');
    }
    assert_eq!(source, Token::Identifier("name".to_string()));
    assert_eq!(copy, Token::Identifier("namex".to_string()));
    assert_eq!(Token::Arrow.clone(), Token::Arrow);
    assert_eq!(Token::Integer(-4).clone(), Token::Integer(-4));
}

#[test]
fn syntax_errors_name_what_was_unexpected() {
    assert_eq!(SyntaxError::unexpected_end().message(), "Unexpected end of input");
    assert_eq!(
        SyntaxError::unexpected_token(&Token::Integer(123)).message(),
        "Unexpected token: '123'"
    );
    assert_eq!(
        SyntaxError::unexpected(Some(&Token::RightBrace)).message(),
        "Unexpected token: '}'"
    );
    assert_eq!(SyntaxError::unexpected(None).message(), "Unexpected end of input");
}

#[test]
fn syntax_errors_are_shown_with_their_kind() {
    assert_eq!(SyntaxError::unexpected_end().to_string(), "Syntax error: Unexpected end of input");
    assert_eq!(
        SyntaxError::unexpected_token(&Token::Identifier("x".to_string())).to_string(),
        "Syntax error: Unexpected token: 'x'"
    );
    let error = SyntaxError::unexpected_token(&Token::Let);
    assert_eq!(error.clone().to_string(), error.to_string());
}
