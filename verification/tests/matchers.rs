use front_end::chars::read_decimal;
use front_end::lexer::Token;
use front_end::matcher::{
    collect, initial_candidates, plain_float, Candidate, ExactParser, ExactToken, FloatParser,
    IdentifierParser, IntegerParser, MacroCallParser, StringParser,
};
use front_end::munch::{complete_first, first_able, munch_from, narrow_candidates};

fn chars(text: &str) -> Vec<char> {
    text.chars().collect()
}

/// Feeds `text` to `candidate`, one character after the other.
fn run(candidate: Candidate, text: &str) -> Option<Candidate> {
    let mut state = candidate;
    for character in text.chars() {
        state = state.accept(character)?;
    }
    Some(state)
}

fn complete(candidate: Candidate, text: &str) -> Option<Token> {
    let input = chars(text);
    run(candidate, text)?.complete(&input, 0, input.len())
}

#[test]
fn read_decimal_gives_the_value() {
    let text = chars("x00123y");
    assert_eq!(read_decimal(&text, 1, 6), Some(123));
    assert_eq!(read_decimal(&text, 1, 3), Some(0));
    assert_eq!(read_decimal(&text, 3, 3), Some(0));
    assert_eq!(read_decimal(&text, 5, 6), Some(3));
    assert_eq!(read_decimal(&text, 0, 6), None);
    assert_eq!(read_decimal(&text, 1, 7), None);
}

#[test]
fn read_decimal_stops_at_the_largest_i128() {
    let largest = chars("170141183460469231731687303715884105727");
    assert_eq!(read_decimal(&largest, 0, largest.len()), Some(i128::MAX));
    let beyond = chars("170141183460469231731687303715884105728");
    assert_eq!(read_decimal(&beyond, 0, beyond.len()), None);
    let longer = chars("1701411834604692317316873037158841057270");
    assert_eq!(read_decimal(&longer, 0, longer.len()), None);
    let padded = chars("000000170141183460469231731687303715884105727");
    assert_eq!(read_decimal(&padded, 0, padded.len()), Some(i128::MAX));
    let other_digits = chars("١٢٣");
    assert_eq!(read_decimal(&other_digits, 0, other_digits.len()), None);
}

#[test]
fn collect_copies_a_part_of_the_input() {
    let input = chars("héllo wörld");
    assert_eq!(collect(&input, 0, 5), "héllo");
    assert_eq!(collect(&input, 6, 11), "wörld");
    assert_eq!(collect(&input, 3, 3), "");
}

#[test]
fn plain_floats_hold_ascii_digits_and_points() {
    assert!(plain_float(&chars("12.5"), 0, 4));
    assert!(plain_float(&chars("x12.5x"), 1, 5));
    assert!(!plain_float(&chars("x12.5x"), 0, 5));
    assert!(!plain_float(&chars("1.٣"), 0, 3));
    assert!(plain_float(&chars(""), 0, 0));
}

#[test]
fn the_exact_matcher_follows_its_text() {
    let arrow = Candidate::Exact(ExactParser::new(ExactToken::Arrow));
    assert_eq!(complete(arrow, "->"), Some(Token::Arrow));
    assert_eq!(complete(arrow, "-"), None);
    assert!(run(arrow, "-").is_some());
    assert!(run(arrow, "->>").is_none());
    assert!(run(arrow, ">").is_none());
    let keyword = Candidate::Exact(ExactParser::new(ExactToken::Function));
    assert_eq!(complete(keyword, "function"), Some(Token::Function));
    assert_eq!(complete(keyword, "functio"), None);
    assert!(run(keyword, "functions").is_none());
    assert_eq!(ExactParser::new(ExactToken::Let).offset, 0);
    assert_eq!(ExactParser::new(ExactToken::Let).accept('l').unwrap().offset, 1);
}

#[test]
fn every_fixed_token_has_its_text() {
    let all = [
        (ExactToken::LeftParen, "(", Token::LeftParen),
        (ExactToken::RightParen, ")", Token::RightParen),
        (ExactToken::LeftBrace, "{", Token::LeftBrace),
        (ExactToken::RightBrace, "}", Token::RightBrace),
        (ExactToken::LeftBracket, "[", Token::LeftBracket),
        (ExactToken::RightBracket, "]", Token::RightBracket),
        (ExactToken::Comma, ",", Token::Comma),
        (ExactToken::Dot, ".", Token::Dot),
        (ExactToken::Colon, ":", Token::Colon),
        (ExactToken::Semicolon, ";", Token::Semicolon),
        (ExactToken::Plus, "+", Token::Plus),
        (ExactToken::Minus, "-", Token::Minus),
        (ExactToken::Star, "*", Token::Star),
        (ExactToken::Slash, "/", Token::Slash),
        (ExactToken::Percent, "%", Token::Percent),
        (ExactToken::Arrow, "->", Token::Arrow),
        (ExactToken::Equals, "=", Token::Equals),
        (ExactToken::Function, "function", Token::Function),
        (ExactToken::Let, "let", Token::Let),
        (ExactToken::Mut, "mut", Token::Mut),
        (ExactToken::If, "if", Token::If),
        (ExactToken::Else, "else", Token::Else),
        (ExactToken::I8, "i8", Token::I8),
        (ExactToken::I16, "i16", Token::I16),
        (ExactToken::I32, "i32", Token::I32),
        (ExactToken::I64, "i64", Token::I64),
        (ExactToken::Iptr, "iptr", Token::Iptr),
        (ExactToken::U8, "u8", Token::U8),
        (ExactToken::U16, "u16", Token::U16),
        (ExactToken::U32, "u32", Token::U32),
        (ExactToken::U64, "u64", Token::U64),
        (ExactToken::Uptr, "uptr", Token::Uptr),
        (ExactToken::F32, "f32", Token::F32),
        (ExactToken::F64, "f64", Token::F64),
        (ExactToken::Bool, "bool", Token::Bool),
        (ExactToken::CharType, "char", Token::CharType),
        (ExactToken::StringType, "string", Token::StringType),
    ];
    for (exact, text, token) in all.iter() {
        assert_eq!(exact.literal(), *text);
        assert_eq!(exact.to_token(), *token);
        assert_eq!(complete(Candidate::Exact(ExactParser::new(*exact)), text), Some(token.clone()));
    }
}

#[test]
fn the_identifier_matcher() {
    let matcher = Candidate::Identifier(IdentifierParser::new());
    assert_eq!(complete(matcher, "abc_1"), Some(Token::Identifier("abc_1".to_string())));
    assert_eq!(complete(matcher, "_"), Some(Token::Identifier("_".to_string())));
    assert!(run(matcher, "1").is_none());
    assert!(run(matcher, "a-").is_none());
    assert!(run(matcher, "a b").is_none());
    assert!(!IdentifierParser::new().started);
    assert!(IdentifierParser::new().accept('x').unwrap().started);
}

#[test]
fn the_macro_call_matcher() {
    let matcher = Candidate::MacroCall(MacroCallParser::new());
    assert_eq!(complete(matcher, "print!"), Some(Token::MacroCall("print".to_string())));
    assert_eq!(complete(matcher, "print"), None);
    assert_eq!(complete(matcher, "!"), Some(Token::MacroCall(String::new())));
    assert_eq!(complete(matcher, "9_lives!"), Some(Token::MacroCall("9_lives".to_string())));
    assert!(run(matcher, "a!b").is_none());
    assert!(run(matcher, "a!!").is_none());
    assert!(MacroCallParser::new().accept('!').unwrap().found_bang);
}

#[test]
fn the_integer_matcher() {
    let matcher = Candidate::Integer(IntegerParser::new());
    assert_eq!(complete(matcher, "2024"), Some(Token::Integer(2024)));
    assert!(run(matcher, "20a").is_none());
    assert!(run(matcher, "2.").is_none());
    assert!(run(matcher, "٣").is_some());
    assert!(run(matcher, "٣").unwrap().can_complete(1));
    assert!(!run(matcher, "٣").unwrap().fits(&chars("٣"), 0, 1));
    assert!(run(matcher, "3").unwrap().fits(&chars("3"), 0, 1));
}

#[test]
fn the_float_matcher() {
    let matcher = Candidate::Float(FloatParser::new());
    assert_eq!(complete(matcher, "2.5"), Some(Token::Float("2.5".to_string())));
    assert_eq!(complete(matcher, "2."), Some(Token::Float("2.".to_string())));
    assert_eq!(complete(matcher, ".5"), Some(Token::Float(".5".to_string())));
    assert_eq!(complete(matcher, "25"), None);
    assert_eq!(complete(matcher, "."), None);
    assert!(run(matcher, ".").is_some());
    assert!(run(matcher, "2.5.").is_none());
    assert!(run(matcher, "..").is_none());
    assert!(run(matcher, "2a").is_none());
    let state = FloatParser::new().accept('.').unwrap();
    assert!(state.found_dot && !state.found_digit);
    let state = FloatParser::new().accept('1').unwrap();
    assert!(!state.found_dot && state.found_digit);
}

#[test]
fn the_string_matcher() {
    let matcher = Candidate::StringLiteral(StringParser::new());
    assert_eq!(complete(matcher, "\"ab\""), Some(Token::StringLiteral("ab".to_string())));
    assert_eq!(complete(matcher, "\"\""), Some(Token::StringLiteral(String::new())));
    assert_eq!(complete(matcher, "\"ab"), None);
    assert_eq!(complete(matcher, "\""), None);
    assert_eq!(complete(matcher, "\"a\\\""), None);
    assert_eq!(complete(matcher, "\"a\\\"\""), Some(Token::StringLiteral("a\\\"".to_string())));
    assert_eq!(complete(matcher, "\"a\\\\\""), Some(Token::StringLiteral("a\\\\".to_string())));
    assert!(run(matcher, "a").is_none());
    assert!(run(matcher, "\"a\"b").is_none());
    let state = StringParser::new().accept('"').unwrap();
    assert!(state.found_initial_quote && !state.found_terminal_quote);
    let state = state.accept('\\').unwrap();
    assert!(state.next_character_is_escaped);
    let state = state.accept('\\').unwrap();
    assert!(!state.next_character_is_escaped);
    let state = state.accept('"').unwrap();
    assert!(state.found_terminal_quote);
}

#[test]
fn can_complete_says_what_complete_will_do() {
    let identifier = Candidate::Identifier(IdentifierParser::new());
    assert!(run(identifier, "ab").unwrap().can_complete(2));
    let call = Candidate::MacroCall(MacroCallParser::new());
    assert!(!run(call, "ab").unwrap().can_complete(2));
    assert!(run(call, "ab!").unwrap().can_complete(3));
    let keyword = Candidate::Exact(ExactParser::new(ExactToken::If));
    assert!(!run(keyword, "i").unwrap().can_complete(1));
    assert!(run(keyword, "if").unwrap().can_complete(2));
    let string = Candidate::StringLiteral(StringParser::new());
    assert!(!run(string, "\"a").unwrap().can_complete(2));
    assert!(run(string, "\"a\"").unwrap().can_complete(3));
}

#[test]
fn the_registry_holds_every_matcher_once_and_keywords_first() {
    let candidates = initial_candidates();
    assert_eq!(candidates.len(), 42);
    let identifier = candidates
        .iter()
        .position(|candidate| matches!(candidate, Candidate::Identifier(_)))
        .unwrap();
    assert_eq!(identifier, 20);
    for candidate in candidates[..identifier].iter() {
        match candidate {
            Candidate::Exact(parser) => {
                assert!(parser.token.literal().chars().all(|c| c.is_ascii_alphanumeric()));
                assert_eq!(parser.offset, 0);
            }
            _ => panic!("only keywords stand before the identifier matcher"),
        }
    }
    let place = |token: ExactToken| {
        candidates
            .iter()
            .position(|candidate| matches!(candidate, Candidate::Exact(parser) if parser.token == token))
            .unwrap()
    };
    assert!(place(ExactToken::Arrow) < place(ExactToken::Minus));
    assert_eq!(place(ExactToken::Function), 0);
    assert_eq!(place(ExactToken::Equals), 41);
}

#[test]
fn narrowing_keeps_the_matchers_that_accept() {
    let all = initial_candidates();
    let after_i = narrow_candidates(&all, 'i');
    assert_eq!(after_i.len(), 8);
    let after_if = narrow_candidates(&after_i, 'f');
    assert_eq!(after_if.len(), 3);
    assert!(matches!(after_if[0], Candidate::Exact(parser) if parser.token == ExactToken::If));
    assert!(matches!(after_if[1], Candidate::Identifier(_)));
    assert!(matches!(after_if[2], Candidate::MacroCall(_)));
    assert_eq!(narrow_candidates(&all, '@').len(), 0);
    assert_eq!(narrow_candidates(&after_if, ' ').len(), 0);
}

#[test]
fn munch_from_reads_the_longest_viable_text() {
    let input = chars("let letter 12.5.1 -> @");
    let (end, alive) = munch_from(&input, 0);
    assert_eq!(end, 3);
    assert_eq!(alive.len(), 3);
    assert_eq!(munch_from(&input, 4).0, 10);
    assert_eq!(munch_from(&input, 11).0, 15);
    assert_eq!(munch_from(&input, 15).0, 17);
    assert_eq!(munch_from(&input, 18).0, 20);
    let (end, alive) = munch_from(&input, 21);
    assert_eq!(end, 21);
    assert_eq!(alive.len(), 42);
    assert_eq!(munch_from(&input, 22).0, 22);
}

#[test]
fn the_first_matcher_that_completes_decides() {
    let input = chars("let lets 1a");
    let (end, alive) = munch_from(&input, 0);
    assert_eq!(complete_first(&alive, &input, 0, end), Some(Token::Let));
    assert!(matches!(first_able(&alive, end), Some(Candidate::Exact(_))));
    let (end, alive) = munch_from(&input, 4);
    assert_eq!(
        complete_first(&alive, &input, 4, end),
        Some(Token::Identifier("lets".to_string()))
    );
    assert!(matches!(first_able(&alive, end - 4), Some(Candidate::Identifier(_))));
    let (end, alive) = munch_from(&input, 9);
    assert_eq!(end, 11);
    assert_eq!(complete_first(&alive, &input, 9, end), None);
    assert_eq!(first_able(&alive, end - 9).is_none(), true);
}
