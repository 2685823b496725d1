use front_end::ast::{
    FunctionDefinition, IgnoreValue, Node, ParameterDeclaration, Type, VariableDefinition,
};
use front_end::lexer::{try_tokenize, Token, TokenIterator};
use front_end::parser::{
    parse, parse_block, parse_expression, parse_function, parse_global_item,
    parse_parameter_declaration, parse_program, parse_repeated_item, parse_statement, parse_type,
    parse_variable_definition, Item, SyntaxError,
};

fn tokens_of(text: &str) -> TokenIterator {
    try_tokenize(text.chars().collect()).expect("every numeric literal can be held")
}

fn parse_text(text: &str) -> Result<Box<Node>, SyntaxError> {
    parse(&mut tokens_of(text))
}

fn message_of(text: &str) -> String {
    match parse_text(text) {
        Ok(tree) => panic!("parsed to {:?}", tree),
        Err(error) => error.message().clone(),
    }
}

fn type_node(type_value: Type) -> Box<Node> {
    Box::new(Node::Type(type_value))
}

fn integer(value: i128) -> Box<Node> {
    Box::new(Node::IntegerLiteral(value))
}

fn list(nodes: Vec<Box<Node>>) -> Box<Node> {
    Box::new(Node::List(nodes))
}

fn parameter(name: &str, type_value: Type) -> Box<Node> {
    Box::new(Node::ParameterDeclaration(ParameterDeclaration::new(
        name.to_string(),
        type_node(type_value),
    )))
}

fn variable(mutable: bool, name: &str, type_value: Type, value: i128) -> Box<Node> {
    Box::new(Node::VariableDefinition(VariableDefinition::new(
        mutable,
        name.to_string(),
        type_node(type_value),
        integer(value),
    )))
}

fn function(
    name: &str,
    parameters: Vec<Box<Node>>,
    return_type: Type,
    body: Vec<Box<Node>>,
) -> Box<Node> {
    Box::new(Node::FunctionDefinition(FunctionDefinition::new(
        name.to_string(),
        parameters,
        type_node(return_type),
        list(body),
    )))
}

fn ignored(value: i128) -> Box<Node> {
    Box::new(Node::IgnoreValue(IgnoreValue::new(integer(value))))
}

#[test]
fn round_trip_tree() {
    let tree = parse_text("function add(a: i32, b: i32) -> i32 { let sum: i32 = 1; }").unwrap();
    let expected = list(vec![function(
        "add",
        vec![parameter("a", Type::I32), parameter("b", Type::I32)],
        Type::I32,
        vec![variable(false, "sum", Type::I32, 1)],
    )]);
    assert_eq!(tree, expected);
}

#[test]
fn a_comma_after_the_last_parameter_changes_nothing() {
    let with = parse_text("function add(a: i32, b: i32,) -> i32 { let sum: i32 = 1; }").unwrap();
    let without = parse_text("function add(a: i32, b: i32) -> i32 { let sum: i32 = 1; }").unwrap();
    assert_eq!(with, without);
    let none = parse_text("function add(a: i32 b: i32) -> i32 { let sum: i32 = 1; }").unwrap();
    assert_eq!(none, without);
}

#[test]
fn an_open_parameter_list_ends_unexpectedly() {
    assert_eq!(message_of("function foo("), "Unexpected end of input");
    assert_eq!(
        parse_text("function foo(").unwrap_err().to_string(),
        "Syntax error: Unexpected end of input"
    );
}

#[test]
fn a_number_is_no_function_name() {
    assert_eq!(message_of("function 123"), "Unexpected token: '123'");
    assert_eq!(
        parse_text("function 123").unwrap_err().to_string(),
        "Syntax error: Unexpected token: '123'"
    );
}

#[test]
fn the_empty_program() {
    assert_eq!(parse_text("").unwrap(), list(vec![]));
    assert_eq!(parse_text("  \n ").unwrap(), list(vec![]));
}

#[test]
fn several_functions() {
    let tree = parse_text("function f() -> bool {} function g(x: u8) -> string { 1 }").unwrap();
    let expected = list(vec![
        function("f", vec![], Type::Bool, vec![]),
        function("g", vec![parameter("x", Type::U8)], Type::String, vec![integer(1)]),
    ]);
    assert_eq!(tree, expected);
}

#[test]
fn a_statement_with_a_semicolon_is_ignored_and_one_without_is_kept() {
    let tree = parse_text("function f() -> i8 { 1; 2 3; }").unwrap();
    let expected = list(vec![function(
        "f",
        vec![],
        Type::I8,
        vec![ignored(1), integer(2), ignored(3)],
    )]);
    assert_eq!(tree, expected);
}

#[test]
fn mutable_and_immutable_variables() {
    let tree = parse_text("function f() -> i8 { let mut a: u64 = 5; let b: char = 6; }").unwrap();
    let expected = list(vec![function(
        "f",
        vec![],
        Type::I8,
        vec![variable(true, "a", Type::U64, 5), variable(false, "b", Type::Char, 6)],
    )]);
    assert_eq!(tree, expected);
}

#[test]
fn anything_but_a_function_at_the_top_is_unexpected() {
    assert_eq!(message_of("let"), "Unexpected token: 'let'");
    assert_eq!(message_of("function f() -> i8 {} }"), "Unexpected token: '}'");
    assert_eq!(message_of("function f() -> i8 {} 1"), "Unexpected token: '1'");
    assert_eq!(message_of("x"), "Unexpected token: 'x'");
}

#[test]
fn the_error_token_is_unexpected_like_any_other() {
    assert_eq!(message_of("@"), "Unexpected token: 'Invalid character: @'");
    assert_eq!(
        message_of("function f() -> i8 { # }"),
        "Unexpected token: 'Invalid character: #'"
    );
}

#[test]
fn the_first_mismatch_is_reported() {
    assert_eq!(message_of("function"), "Unexpected end of input");
    assert_eq!(message_of("function f"), "Unexpected end of input");
    assert_eq!(message_of("function f {"), "Unexpected token: '{'");
    assert_eq!(message_of("function f(1)"), "Unexpected token: '1'");
    assert_eq!(message_of("function f(a)"), "Unexpected token: ')'");
    assert_eq!(message_of("function f(a:)"), "Unexpected token: ')'");
    assert_eq!(message_of("function f(a: x)"), "Unexpected token: 'x'");
    assert_eq!(message_of("function f()"), "Unexpected end of input");
    assert_eq!(message_of("function f() {"), "Unexpected token: '{'");
    assert_eq!(message_of("function f() ->"), "Unexpected end of input");
    assert_eq!(message_of("function f() -> f"), "Unexpected token: 'f'");
    assert_eq!(message_of("function f() -> i8"), "Unexpected end of input");
    assert_eq!(message_of("function f() -> i8 ;"), "Unexpected token: ';'");
    assert_eq!(message_of("function f() -> i8 {"), "Unexpected end of input");
    assert_eq!(message_of("function f() -> i8 { x }"), "Unexpected token: 'x'");
    assert_eq!(message_of("function f() -> i8 { 1.5 }"), "Unexpected token: '1.5'");
    assert_eq!(message_of("function f() -> i8 { \"s\" }"), "Unexpected token: '\"s\"'");
    assert_eq!(message_of("function f() -> i8 { p! }"), "Unexpected token: 'p!'");
}

#[test]
fn mismatches_inside_a_variable_definition() {
    let inside = |body: &str| message_of(&format!("function f() -> i8 {{ {} }}", body));
    assert_eq!(inside("let"), "Unexpected token: '}'");
    assert_eq!(inside("let mut"), "Unexpected token: '}'");
    assert_eq!(inside("let mut mut"), "Unexpected token: 'mut'");
    assert_eq!(inside("let 1"), "Unexpected token: '1'");
    assert_eq!(inside("let a"), "Unexpected token: '}'");
    assert_eq!(inside("let a ="), "Unexpected token: '='");
    assert_eq!(inside("let a :"), "Unexpected token: '}'");
    assert_eq!(inside("let a : b"), "Unexpected token: 'b'");
    assert_eq!(inside("let a : i8"), "Unexpected token: '}'");
    assert_eq!(inside("let a : i8 ;"), "Unexpected token: ';'");
    assert_eq!(inside("let a : i8 ="), "Unexpected token: '}'");
    assert_eq!(inside("let a : i8 = b"), "Unexpected token: 'b'");
    assert_eq!(inside("let a : i8 = 1"), "Unexpected token: '}'");
    assert_eq!(inside("let a : i8 = 1,"), "Unexpected token: ','");
    assert_eq!(message_of("function f() -> i8 { let a : i8 = 1"), "Unexpected end of input");
}

#[test]
fn every_primitive_type_is_a_type() {
    let types = [
        ("i8", Type::I8),
        ("i16", Type::I16),
        ("i32", Type::I32),
        ("i64", Type::I64),
        ("iptr", Type::Iptr),
        ("u8", Type::U8),
        ("u16", Type::U16),
        ("u32", Type::U32),
        ("u64", Type::U64),
        ("uptr", Type::Uptr),
        ("f32", Type::F32),
        ("f64", Type::F64),
        ("bool", Type::Bool),
        ("char", Type::Char),
        ("string", Type::String),
    ];
    for (text, type_value) in types.iter() {
        let mut tokens = tokens_of(text);
        assert_eq!(parse_type(&mut tokens).unwrap(), type_node(*type_value));
        assert_eq!(tokens.next(), None);
    }
}

#[test]
fn parse_type_takes_the_token_that_it_refuses() {
    let mut tokens = tokens_of("x y");
    assert_eq!(parse_type(&mut tokens).unwrap_err().message(), "Unexpected token: 'x'");
    assert_eq!(tokens.next(), Some(Token::Identifier("y".to_string())));
    let mut none = tokens_of("");
    assert_eq!(parse_type(&mut none).unwrap_err().message(), "Unexpected end of input");
}

#[test]
fn parse_expression_reads_one_integer() {
    let mut tokens = tokens_of("12 13");
    assert_eq!(parse_expression(&mut tokens).unwrap(), integer(12));
    assert_eq!(parse_expression(&mut tokens).unwrap(), integer(13));
    assert_eq!(parse_expression(&mut tokens).unwrap_err().message(), "Unexpected end of input");
    let mut name = tokens_of("a");
    assert_eq!(parse_expression(&mut name).unwrap_err().message(), "Unexpected token: 'a'");
}

#[test]
fn parse_statement_leaves_what_follows() {
    let mut tokens = tokens_of("1 ; 2 }");
    assert_eq!(parse_statement(&mut tokens).unwrap(), ignored(1));
    assert_eq!(parse_statement(&mut tokens).unwrap(), integer(2));
    assert_eq!(tokens.next(), Some(Token::RightBrace));
    assert_eq!(parse_statement(&mut tokens).unwrap_err().message(), "Unexpected end of input");
}

#[test]
fn parse_variable_definition_reads_to_the_semicolon() {
    let mut tokens = tokens_of("let mut total: i64 = 100; 5");
    assert_eq!(
        parse_variable_definition(&mut tokens).unwrap(),
        variable(true, "total", Type::I64, 100)
    );
    assert_eq!(tokens.next(), Some(Token::Integer(5)));
    let mut other = tokens_of("mut");
    assert_eq!(
        parse_variable_definition(&mut other).unwrap_err().message(),
        "Unexpected token: 'mut'"
    );
}

#[test]
fn parse_parameter_declaration_takes_a_comma_if_there_is_one() {
    let mut tokens = tokens_of("a: i8, b: u8 )");
    assert_eq!(parse_parameter_declaration(&mut tokens).unwrap(), parameter("a", Type::I8));
    assert_eq!(parse_parameter_declaration(&mut tokens).unwrap(), parameter("b", Type::U8));
    assert_eq!(tokens.next(), Some(Token::RightParen));
}

#[test]
fn parse_block_reads_between_braces() {
    let mut tokens = tokens_of("{ 1; let a: i8 = 2; 3 } 4");
    assert_eq!(
        parse_block(&mut tokens).unwrap(),
        list(vec![ignored(1), variable(false, "a", Type::I8, 2), integer(3)])
    );
    assert_eq!(tokens.next(), Some(Token::Integer(4)));
    let mut empty = tokens_of("{}");
    assert_eq!(parse_block(&mut empty).unwrap(), list(vec![]));
}

#[test]
fn parse_function_and_parse_global_item_read_one_function() {
    let expected = function("f", vec![parameter("a", Type::F32)], Type::F64, vec![integer(1)]);
    let mut tokens = tokens_of("function f(a: f32) -> f64 { 1 } function");
    assert_eq!(parse_function(&mut tokens).unwrap(), expected);
    assert_eq!(tokens.next(), Some(Token::Function));
    let mut again = tokens_of("function f(a: f32) -> f64 { 1 }");
    assert_eq!(parse_global_item(&mut again).unwrap(), expected);
    let mut other = tokens_of("f");
    assert_eq!(parse_global_item(&mut other).unwrap_err().message(), "Unexpected token: 'f'");
    assert_eq!(other.next(), Some(Token::Identifier("f".to_string())));
}

#[test]
fn a_missing_function_name_is_left_in_place() {
    let mut tokens = tokens_of("function ( x");
    assert_eq!(parse_function(&mut tokens).unwrap_err().message(), "Unexpected token: '('");
    assert_eq!(tokens.next(), Some(Token::LeftParen));
}

#[test]
fn parse_repeated_item_reads_up_to_its_end() {
    let mut tokens = tokens_of("1; 2 } 3");
    let items = parse_repeated_item(&mut tokens, Item::Statement, Some(Token::RightBrace)).unwrap();
    assert_eq!(items, vec![ignored(1), integer(2)]);
    assert_eq!(tokens.next(), Some(Token::Integer(3)));

    let mut open = tokens_of("1; 2");
    let error = parse_repeated_item(&mut open, Item::Statement, Some(Token::RightBrace));
    assert_eq!(error.unwrap_err().message(), "Unexpected end of input");

    let mut parameters = tokens_of("a: i8, b: i8) x");
    let items =
        parse_repeated_item(&mut parameters, Item::Parameter, Some(Token::RightParen)).unwrap();
    assert_eq!(items, vec![parameter("a", Type::I8), parameter("b", Type::I8)]);
    assert_eq!(parameters.next(), Some(Token::Identifier("x".to_string())));

    let mut all = tokens_of("1 2 3");
    let items = parse_repeated_item(&mut all, Item::Statement, None).unwrap();
    assert_eq!(items, vec![integer(1), integer(2), integer(3)]);
    assert_eq!(all.next(), None);
}

#[test]
fn parse_program_is_what_parse_does() {
    let text = "function f() -> i8 { 1 }";
    assert_eq!(parse_program(&mut tokens_of(text)).unwrap(), parse_text(text).unwrap());
    assert_eq!(
        parse_program(&mut tokens_of("function f")).unwrap_err().message(),
        "Unexpected end of input"
    );
}

#[test]
fn a_successful_parse_leaves_no_token() {
    let mut tokens = tokens_of("function f() -> i8 { 1 }");
    assert!(parse(&mut tokens).is_ok());
    assert_eq!(tokens.next(), None);
}
