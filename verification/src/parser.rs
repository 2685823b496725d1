//! The parser: recursive descent over the tokens, with one token of
//! lookahead and no recovery.

use crate::ast::{
    list_view, FunctionDefinition, IgnoreValue, Node, NodeView, ParameterDeclaration, Type,
    VariableDefinition,
};
use crate::grammar::{
    block_rule, expect_rule, expression_rule, function_rule, global_item_rule, identifier_rule,
    lemma_global_item_takes_tokens, lemma_parameter_takes_tokens, lemma_statement_takes_tokens,
    parameter_declaration_rule, prefixed, program_rule, repeated_rule, skip_optional, starts_with,
    statement_rule, type_rule, unexpected_end_message, unexpected_token_message,
    variable_definition_rule, Parsed,
};
use crate::lexer::{Token, TokenIterator, TokenView};
use vstd::prelude::*;

verus! {

/// Why a parse failed: the first token that the grammar does not allow where
/// it stands, or the end of the input where the grammar asks for more.
#[derive(Debug)]
pub struct SyntaxError {
    message: String,
}

impl Clone for SyntaxError {
    /// An independent copy with the same message.
    fn clone(&self) -> (copy: SyntaxError)
        ensures
            copy@ == self@,
    {
        SyntaxError { message: self.message.clone() }
    }
}

impl View for SyntaxError {
    type V = Seq<char>;

    /// The message of the error.
    closed spec fn view(&self) -> Seq<char> {
        self.message@
    }
}

impl SyntaxError {
    /// The error for a token that the grammar does not allow where it stands.
    pub fn unexpected_token(token: &Token) -> (error: SyntaxError)
        ensures
            error@ == unexpected_token_message(token@),
    {
        let mut message = "Unexpected token: ".to_owned();
        message.append(token.to_string().as_str());
        SyntaxError { message }
    }

    /// The error for an input that ends where the grammar asks for more.
    pub fn unexpected_end() -> (error: SyntaxError)
        ensures
            error@ == unexpected_end_message(),
    {
        SyntaxError { message: "Unexpected end of input".to_owned() }
    }

    /// The error for `token`, or for the end of the input if there is none.
    pub fn unexpected(token: Option<&Token>) -> (error: SyntaxError)
        ensures
            error@ == match token {
                Some(token) => unexpected_token_message(token@),
                None => unexpected_end_message(),
            },
    {
        match token {
            Some(token) => SyntaxError::unexpected_token(token),
            None => SyntaxError::unexpected_end(),
        }
    }

    /// The message of the error.
    pub fn message(&self) -> (message: &String)
        ensures
            message@ == self@,
    {
        &self.message
    }

    /// The printable form of the error: `Syntax error: ` and the message.
    pub fn to_string(&self) -> (text: String)
        ensures
            text@ == "Syntax error: "@ + self@,
    {
        let mut text = "Syntax error: ".to_owned();
        text.append(self.message.as_str());
        text
    }
}

/// A node, or the error that ended the parse.
pub type ParsedItem = Result<Box<Node>, SyntaxError>;

/// The value of what a parsing function returns.
pub open spec fn item_view(item: ParsedItem) -> Result<NodeView, Seq<char>> {
    match item {
        Ok(node) => Ok(node@),
        Err(error) => Err(error@),
    }
}

/// The value of what [`parse_repeated_item`] returns.
pub open spec fn items_view(items: Result<Vec<Box<Node>>, SyntaxError>) -> Result<
    Seq<NodeView>,
    Seq<char>,
> {
    match items {
        Ok(nodes) => Ok(list_view(nodes@)),
        Err(error) => Err(error@),
    }
}

/// The kinds of item that the grammar repeats.
#[derive(Clone, Copy, Debug, PartialEq, Eq, Structural)]
pub enum Item {
    /// The parameters of a function.
    Parameter,
    /// The statements of a block.
    Statement,
    /// The items of a program.
    GlobalItem,
}

impl Item {
    /// The rule for one item of this kind.
    pub open spec fn rule(self) -> spec_fn(Seq<TokenView>) -> Parsed<NodeView> {
        match self {
            Item::Parameter => |tokens: Seq<TokenView>| parameter_declaration_rule(tokens),
            Item::Statement => |tokens: Seq<TokenView>| statement_rule(tokens),
            Item::GlobalItem => |tokens: Seq<TokenView>| global_item_rule(tokens),
        }
    }

    /// How deep in the grammar the items of this kind stand; what an item is
    /// made of stands lower.
    pub open spec fn depth(self) -> nat {
        match self {
            Item::Parameter => 0,
            Item::Statement => 0,
            Item::GlobalItem => 4,
        }
    }
}

/// Takes the next token, which must be `expected`.
fn expect(token_iterator: &mut TokenIterator, expected: &Token) -> (taken: Result<(), SyntaxError>)
    ensures
        match taken {
            Ok(_) => expect_rule(old(token_iterator)@, expected@).outcome is Ok,
            Err(error) => expect_rule(old(token_iterator)@, expected@).outcome == Err::<
                (),
                Seq<char>,
            >(error@),
        },
        final(token_iterator)@ == expect_rule(old(token_iterator)@, expected@).rest,
{
    match token_iterator.next() {
        Some(token) => {
            if token.same(expected) {
                Ok(())
            } else {
                Err(SyntaxError::unexpected_token(&token))
            }
        },
        None => Err(SyntaxError::unexpected_end()),
    }
}

/// Takes the next token, which must be an identifier, and gives its name.
fn expect_identifier(token_iterator: &mut TokenIterator) -> (taken: Result<String, SyntaxError>)
    ensures
        match taken {
            Ok(name) => identifier_rule(old(token_iterator)@).outcome == Ok::<
                Seq<char>,
                Seq<char>,
            >(name@),
            Err(error) => identifier_rule(old(token_iterator)@).outcome == Err::<
                Seq<char>,
                Seq<char>,
            >(error@),
        },
        final(token_iterator)@ == identifier_rule(old(token_iterator)@).rest,
{
    match token_iterator.next() {
        Some(token) => match token {
            Token::Identifier(name) => Ok(name),
            _ => Err(SyntaxError::unexpected_token(&token)),
        },
        None => Err(SyntaxError::unexpected_end()),
    }
}

/// Takes the next token if it is `token`, and says whether it did.
fn take_optional(token_iterator: &mut TokenIterator, token: &Token) -> (taken: bool)
    ensures
        taken == starts_with(old(token_iterator)@, token@),
        final(token_iterator)@ == skip_optional(old(token_iterator)@, token@),
{
    let found = match token_iterator.peek() {
        Some(next) => next.same(token),
        None => false,
    };
    if found {
        let _ = token_iterator.next();
    }
    found
}

/// Parses a type: the name of a primitive type.
pub fn parse_type(token_iterator: &mut TokenIterator) -> (item: ParsedItem)
    ensures
        item_view(item) == type_rule(old(token_iterator)@).outcome,
        final(token_iterator)@ == type_rule(old(token_iterator)@).rest,
{
    match token_iterator.next() {
        Some(token) => match token {
            Token::I8 => Ok(Box::new(Node::Type(Type::I8))),
            Token::I16 => Ok(Box::new(Node::Type(Type::I16))),
            Token::I32 => Ok(Box::new(Node::Type(Type::I32))),
            Token::I64 => Ok(Box::new(Node::Type(Type::I64))),
            Token::Iptr => Ok(Box::new(Node::Type(Type::Iptr))),
            Token::U8 => Ok(Box::new(Node::Type(Type::U8))),
            Token::U16 => Ok(Box::new(Node::Type(Type::U16))),
            Token::U32 => Ok(Box::new(Node::Type(Type::U32))),
            Token::U64 => Ok(Box::new(Node::Type(Type::U64))),
            Token::Uptr => Ok(Box::new(Node::Type(Type::Uptr))),
            Token::F32 => Ok(Box::new(Node::Type(Type::F32))),
            Token::F64 => Ok(Box::new(Node::Type(Type::F64))),
            Token::Bool => Ok(Box::new(Node::Type(Type::Bool))),
            Token::CharType => Ok(Box::new(Node::Type(Type::Char))),
            Token::StringType => Ok(Box::new(Node::Type(Type::String))),
            _ => Err(SyntaxError::unexpected_token(&token)),
        },
        None => Err(SyntaxError::unexpected_end()),
    }
}

/// Parses an expression: an integer literal.
pub fn parse_expression(token_iterator: &mut TokenIterator) -> (item: ParsedItem)
    ensures
        item_view(item) == expression_rule(old(token_iterator)@).outcome,
        final(token_iterator)@ == expression_rule(old(token_iterator)@).rest,
{
    match token_iterator.next() {
        Some(token) => match token {
            Token::Integer(value) => Ok(Box::new(Node::IntegerLiteral(value))),
            _ => Err(SyntaxError::unexpected_token(&token)),
        },
        None => Err(SyntaxError::unexpected_end()),
    }
}

/// Parses the definition of a variable.
pub fn parse_variable_definition(token_iterator: &mut TokenIterator) -> (item: ParsedItem)
    ensures
        item_view(item) == variable_definition_rule(old(token_iterator)@).outcome,
        final(token_iterator)@ == variable_definition_rule(old(token_iterator)@).rest,
{
    match expect(token_iterator, &Token::Let) {
        Err(error) => {
            return Err(error);
        },
        Ok(_) => {},
    }
    let mutable = take_optional(token_iterator, &Token::Mut);
    let name = match expect_identifier(token_iterator) {
        Err(error) => {
            return Err(error);
        },
        Ok(name) => name,
    };
    match expect(token_iterator, &Token::Colon) {
        Err(error) => {
            return Err(error);
        },
        Ok(_) => {},
    }
    let variable_type = match parse_type(token_iterator) {
        Err(error) => {
            return Err(error);
        },
        Ok(node) => node,
    };
    match expect(token_iterator, &Token::Equals) {
        Err(error) => {
            return Err(error);
        },
        Ok(_) => {},
    }
    let value = match parse_expression(token_iterator) {
        Err(error) => {
            return Err(error);
        },
        Ok(node) => node,
    };
    match expect(token_iterator, &Token::Semicolon) {
        Err(error) => {
            return Err(error);
        },
        Ok(_) => {},
    }
    Ok(
        Box::new(
            Node::VariableDefinition(VariableDefinition::new(mutable, name, variable_type, value)),
        ),
    )
}

/// Parses a statement.
pub fn parse_statement(token_iterator: &mut TokenIterator) -> (item: ParsedItem)
    ensures
        item_view(item) == statement_rule(old(token_iterator)@).outcome,
        final(token_iterator)@ == statement_rule(old(token_iterator)@).rest,
{
    let definition = match token_iterator.peek() {
        Some(token) => token.same(&Token::Let),
        None => {
            return Err(SyntaxError::unexpected_end());
        },
    };
    if definition {
        parse_variable_definition(token_iterator)
    } else {
        let expression = match parse_expression(token_iterator) {
            Err(error) => {
                return Err(error);
            },
            Ok(node) => node,
        };
        if take_optional(token_iterator, &Token::Semicolon) {
            Ok(Box::new(Node::IgnoreValue(IgnoreValue::new(expression))))
        } else {
            Ok(expression)
        }
    }
}

/// Parses the declaration of a parameter.
pub fn parse_parameter_declaration(token_iterator: &mut TokenIterator) -> (item: ParsedItem)
    ensures
        item_view(item) == parameter_declaration_rule(old(token_iterator)@).outcome,
        final(token_iterator)@ == parameter_declaration_rule(old(token_iterator)@).rest,
{
    let name = match expect_identifier(token_iterator) {
        Err(error) => {
            return Err(error);
        },
        Ok(name) => name,
    };
    match expect(token_iterator, &Token::Colon) {
        Err(error) => {
            return Err(error);
        },
        Ok(_) => {},
    }
    let parameter_type = match parse_type(token_iterator) {
        Err(error) => {
            return Err(error);
        },
        Ok(node) => node,
    };
    let _ = take_optional(token_iterator, &Token::Comma);
    Ok(Box::new(Node::ParameterDeclaration(ParameterDeclaration::new(name, parameter_type))))
}

/// Parses items of one kind up to the token `end`, which is taken too; with
/// no `end`, up to the end of the tokens.
pub fn parse_repeated_item(token_iterator: &mut TokenIterator, item: Item, end: Option<Token>) -> (items:
    Result<Vec<Box<Node>>, SyntaxError>)
    ensures
        items_view(items) == repeated_rule(
            old(token_iterator)@,
            item.rule(),
            end.deep_view(),
        ).outcome,
        final(token_iterator)@ == repeated_rule(
            old(token_iterator)@,
            item.rule(),
            end.deep_view(),
        ).rest,
    decreases item.depth(),
{
    let mut items: Vec<Box<Node>> = Vec::new();
    let ghost all = token_iterator@;
    let ghost rule = item.rule();
    let ghost closing = end.deep_view();
    proof {
        assert(list_view(items@) + Seq::<NodeView>::empty() =~= Seq::<NodeView>::empty());
        assert(list_view(items@) =~= Seq::<NodeView>::empty());
        lemma_prefixed_nothing(repeated_rule(all, rule, closing));
    }
    loop
        invariant_except_break
            repeated_rule(all, rule, closing) == prefixed(
                list_view(items@),
                repeated_rule(token_iterator@, rule, closing),
            ),
        invariant
            all == old(token_iterator)@,
            rule == item.rule(),
            closing == end.deep_view(),
        ensures
            items_view(Ok::<Vec<Box<Node>>, SyntaxError>(items)) == repeated_rule(
                all,
                rule,
                closing,
            ).outcome,
            token_iterator@ == repeated_rule(all, rule, closing).rest,
        decreases token_iterator@.len(),
    {
        let ghost tokens = token_iterator@;
        let ghost before = list_view(items@);
        let (reached, exhausted) = match token_iterator.peek() {
            Some(token) => (
                match &end {
                    Some(end) => token.same(end),
                    None => false,
                },
                false,
            ),
            None => (end.is_none(), true),
        };
        if reached {
            if end.is_some() {
                let _ = token_iterator.next();
            }
            proof {
                assert(before + Seq::<NodeView>::empty() =~= before);
            }
            break ;
        } else if exhausted {
            return Err(SyntaxError::unexpected_end());
        }
        proof {
            lemma_parameter_takes_tokens(tokens);
            lemma_statement_takes_tokens(tokens);
            lemma_global_item_takes_tokens(tokens);
        }
        let parsed = match item {
            Item::Parameter => parse_parameter_declaration(token_iterator),
            Item::Statement => parse_statement(token_iterator),
            Item::GlobalItem => parse_global_item(token_iterator),
        };
        match parsed {
            Err(error) => {
                return Err(error);
            },
            Ok(node) => {
                items.push(node);
                proof {
                    let others = repeated_rule(token_iterator@, rule, closing);
                    assert(list_view(items@) =~= before.push(node@));
                    if let Ok(nodes) = others.outcome {
                        assert(before + (seq![node@] + nodes) =~= before.push(node@) + nodes);
                    }
                }
            },
        }
    }
    Ok(items)
}

/// Putting nothing before the nodes changes nothing.
proof fn lemma_prefixed_nothing(parsed: Parsed<Seq<NodeView>>)
    ensures
        prefixed(Seq::empty(), parsed) == parsed,
{
    if let Ok(nodes) = parsed.outcome {
        assert(Seq::<NodeView>::empty() + nodes =~= nodes);
    }
}

/// Parses a block: statements between braces.
pub fn parse_block(token_iterator: &mut TokenIterator) -> (item: ParsedItem)
    ensures
        item_view(item) == block_rule(old(token_iterator)@).outcome,
        final(token_iterator)@ == block_rule(old(token_iterator)@).rest,
    decreases 1nat,
{
    match expect(token_iterator, &Token::LeftBrace) {
        Err(error) => {
            return Err(error);
        },
        Ok(_) => {},
    }
    let statements = match parse_repeated_item(
        token_iterator,
        Item::Statement,
        Some(Token::RightBrace),
    ) {
        Err(error) => {
            return Err(error);
        },
        Ok(statements) => statements,
    };
    Ok(Box::new(Node::List(statements)))
}

/// Parses the definition of a function. The keyword `function` must be the
/// next token.
pub fn parse_function(token_iterator: &mut TokenIterator) -> (item: ParsedItem)
    requires
        starts_with(old(token_iterator)@, TokenView::Function),
    ensures
        item_view(item) == function_rule(old(token_iterator)@).outcome,
        final(token_iterator)@ == function_rule(old(token_iterator)@).rest,
    decreases 2nat,
{
    let _ = token_iterator.next();
    let name = match token_iterator.peek() {
        Some(token) => match token {
            Token::Identifier(name) => name.clone(),
            _ => {
                return Err(SyntaxError::unexpected_token(token));
            },
        },
        None => {
            return Err(SyntaxError::unexpected_end());
        },
    };
    let _ = token_iterator.next();
    match expect(token_iterator, &Token::LeftParen) {
        Err(error) => {
            return Err(error);
        },
        Ok(_) => {},
    }
    let parameters = match parse_repeated_item(
        token_iterator,
        Item::Parameter,
        Some(Token::RightParen),
    ) {
        Err(error) => {
            return Err(error);
        },
        Ok(parameters) => parameters,
    };
    match expect(token_iterator, &Token::Arrow) {
        Err(error) => {
            return Err(error);
        },
        Ok(_) => {},
    }
    let return_type = match parse_type(token_iterator) {
        Err(error) => {
            return Err(error);
        },
        Ok(node) => node,
    };
    let body = match parse_block(token_iterator) {
        Err(error) => {
            return Err(error);
        },
        Ok(node) => node,
    };
    Ok(
        Box::new(
            Node::FunctionDefinition(FunctionDefinition::new(name, parameters, return_type, body)),
        ),
    )
}

/// Parses one item of a program: the definition of a function.
pub fn parse_global_item(token_iterator: &mut TokenIterator) -> (item: ParsedItem)
    ensures
        item_view(item) == global_item_rule(old(token_iterator)@).outcome,
        final(token_iterator)@ == global_item_rule(old(token_iterator)@).rest,
    decreases 3nat,
{
    let function = match token_iterator.peek() {
        Some(token) => match token {
            Token::Function => true,
            _ => {
                return Err(SyntaxError::unexpected_token(token));
            },
        },
        None => {
            return Err(SyntaxError::unexpected_end());
        },
    };
    parse_function(token_iterator)
}

/// Parses a program: global items to the end of the tokens.
pub fn parse_program(token_iterator: &mut TokenIterator) -> (item: ParsedItem)
    ensures
        item_view(item) == program_rule(old(token_iterator)@).outcome,
        final(token_iterator)@ == program_rule(old(token_iterator)@).rest,
{
    let children = match parse_repeated_item(token_iterator, Item::GlobalItem, None) {
        Err(error) => {
            return Err(error);
        },
        Ok(children) => children,
    };
    Ok(Box::new(Node::List(children)))
}

/// Parses all of the tokens as one program. Gives the tree of the program,
/// or the first syntax error; a token that is left over is one.
pub fn parse(token_iterator: &mut TokenIterator) -> (program: Result<Box<Node>, SyntaxError>)
    ensures
        item_view(program) == program_rule(old(token_iterator)@).outcome,
        final(token_iterator)@ == program_rule(old(token_iterator)@).rest,
{
    parse_program(token_iterator)
}

} // verus!
