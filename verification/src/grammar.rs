//! The grammar, as functions from a sequence of tokens to what the parser
//! makes of it.
//!
//! ```text
//! Program              := GlobalItem*
//! GlobalItem           := FunctionDefinition
//! FunctionDefinition   := 'function' Identifier '(' ParameterDeclaration* ')' '->' Type Block
//! ParameterDeclaration := Identifier ':' Type [',']
//! Block                := '{' Statement* '}'
//! Statement            := VariableDefinition | ExpressionStatement
//! VariableDefinition   := 'let' ['mut'] Identifier ':' Type '=' Expression ';'
//! ExpressionStatement  := Expression [';']
//! Expression           := IntegerLiteral
//! Type                 := one of the names of the primitive types
//! ```
//!
//! Each rule reads tokens from the front of a sequence. It gives the node it
//! has recognized, or the message of the first mismatch, and in both cases the
//! tokens that it has left unread. There is no recovery: the first mismatch
//! ends the parse.

use crate::ast::{NodeView, Type};
use crate::token::TokenView;
use vstd::prelude::*;

verus! {

/// What a rule makes of a sequence of tokens: a value or the message of a
/// syntax error, and the tokens left unread.
pub struct Parsed<T> {
    pub outcome: Result<T, Seq<char>>,
    pub rest: Seq<TokenView>,
}

/// The message for a token that the grammar does not allow where it stands.
pub open spec fn unexpected_token_message(token: TokenView) -> Seq<char> {
    "Unexpected token: "@ + token.representation()
}

/// The message for an input that ends where the grammar asks for more.
pub open spec fn unexpected_end_message() -> Seq<char> {
    "Unexpected end of input"@
}

/// The message for the first of `tokens`, or for their end if there is none.
pub open spec fn unexpected_message(tokens: Seq<TokenView>) -> Seq<char> {
    if tokens.len() > 0 {
        unexpected_token_message(tokens[0])
    } else {
        unexpected_end_message()
    }
}

/// A mismatch at the first of `tokens`, which is taken from the sequence if
/// there is one.
pub open spec fn mismatch<T>(tokens: Seq<TokenView>) -> Parsed<T> {
    Parsed {
        outcome: Err(unexpected_message(tokens)),
        rest: if tokens.len() > 0 {
            tokens.drop_first()
        } else {
            tokens
        },
    }
}

/// Takes the token `expected`; anything else is a mismatch.
pub open spec fn expect_rule(tokens: Seq<TokenView>, expected: TokenView) -> Parsed<()> {
    if tokens.len() > 0 && tokens[0] == expected {
        Parsed { outcome: Ok(()), rest: tokens.drop_first() }
    } else {
        mismatch(tokens)
    }
}

/// Takes an identifier and gives its name.
pub open spec fn identifier_rule(tokens: Seq<TokenView>) -> Parsed<Seq<char>> {
    if tokens.len() > 0 && tokens[0] is Identifier {
        Parsed { outcome: Ok(tokens[0]->Identifier_0), rest: tokens.drop_first() }
    } else {
        mismatch(tokens)
    }
}

/// The primitive type that a token names, if it names one.
pub open spec fn type_of_token(token: TokenView) -> Option<Type> {
    match token {
        TokenView::I8 => Some(Type::I8),
        TokenView::I16 => Some(Type::I16),
        TokenView::I32 => Some(Type::I32),
        TokenView::I64 => Some(Type::I64),
        TokenView::Iptr => Some(Type::Iptr),
        TokenView::U8 => Some(Type::U8),
        TokenView::U16 => Some(Type::U16),
        TokenView::U32 => Some(Type::U32),
        TokenView::U64 => Some(Type::U64),
        TokenView::Uptr => Some(Type::Uptr),
        TokenView::F32 => Some(Type::F32),
        TokenView::F64 => Some(Type::F64),
        TokenView::Bool => Some(Type::Bool),
        TokenView::CharType => Some(Type::Char),
        TokenView::StringType => Some(Type::String),
        _ => None,
    }
}

/// `Type`: the name of a primitive type.
pub open spec fn type_rule(tokens: Seq<TokenView>) -> Parsed<NodeView> {
    if tokens.len() > 0 && type_of_token(tokens[0]) is Some {
        Parsed {
            outcome: Ok(NodeView::Type(type_of_token(tokens[0]).unwrap())),
            rest: tokens.drop_first(),
        }
    } else {
        mismatch(tokens)
    }
}

/// `Expression`: an integer literal, and nothing else.
pub open spec fn expression_rule(tokens: Seq<TokenView>) -> Parsed<NodeView> {
    if tokens.len() > 0 && tokens[0] is Integer {
        Parsed {
            outcome: Ok(NodeView::IntegerLiteral(tokens[0]->Integer_0)),
            rest: tokens.drop_first(),
        }
    } else {
        mismatch(tokens)
    }
}

/// Whether the first of `tokens` is `token`.
pub open spec fn starts_with(tokens: Seq<TokenView>, token: TokenView) -> bool {
    tokens.len() > 0 && tokens[0] == token
}

/// `tokens` without `token` at their front, if it stands there.
pub open spec fn skip_optional(tokens: Seq<TokenView>, token: TokenView) -> Seq<TokenView> {
    if starts_with(tokens, token) {
        tokens.drop_first()
    } else {
        tokens
    }
}

/// `VariableDefinition`: `let`, an optional `mut`, a name, `:`, a type, `=`,
/// an expression and `;`.
pub open spec fn variable_definition_rule(tokens: Seq<TokenView>) -> Parsed<NodeView> {
    let keyword = expect_rule(tokens, TokenView::Let);
    let mutable = starts_with(keyword.rest, TokenView::Mut);
    let name = identifier_rule(skip_optional(keyword.rest, TokenView::Mut));
    let colon = expect_rule(name.rest, TokenView::Colon);
    let variable_type = type_rule(colon.rest);
    let equals = expect_rule(variable_type.rest, TokenView::Equals);
    let value = expression_rule(equals.rest);
    let semicolon = expect_rule(value.rest, TokenView::Semicolon);
    if keyword.outcome is Err {
        Parsed { outcome: Err(keyword.outcome->Err_0), rest: keyword.rest }
    } else if name.outcome is Err {
        Parsed { outcome: Err(name.outcome->Err_0), rest: name.rest }
    } else if colon.outcome is Err {
        Parsed { outcome: Err(colon.outcome->Err_0), rest: colon.rest }
    } else if variable_type.outcome is Err {
        Parsed { outcome: Err(variable_type.outcome->Err_0), rest: variable_type.rest }
    } else if equals.outcome is Err {
        Parsed { outcome: Err(equals.outcome->Err_0), rest: equals.rest }
    } else if value.outcome is Err {
        Parsed { outcome: Err(value.outcome->Err_0), rest: value.rest }
    } else if semicolon.outcome is Err {
        Parsed { outcome: Err(semicolon.outcome->Err_0), rest: semicolon.rest }
    } else {
        Parsed {
            outcome: Ok(
                NodeView::VariableDefinition {
                    mutable,
                    name: name.outcome->Ok_0,
                    variable_type: Box::new(variable_type.outcome->Ok_0),
                    value: Box::new(value.outcome->Ok_0),
                },
            ),
            rest: semicolon.rest,
        }
    }
}

/// `Statement`: a variable definition where `let` stands, else an expression.
/// An expression followed by `;` is wrapped as a value to ignore; one without
/// it is given as it is.
pub open spec fn statement_rule(tokens: Seq<TokenView>) -> Parsed<NodeView> {
    if tokens.len() == 0 {
        Parsed { outcome: Err(unexpected_end_message()), rest: tokens }
    } else if tokens[0] == TokenView::Let {
        variable_definition_rule(tokens)
    } else {
        let expression = expression_rule(tokens);
        if expression.outcome is Err {
            expression
        } else if starts_with(expression.rest, TokenView::Semicolon) {
            Parsed {
                outcome: Ok(NodeView::IgnoreValue(Box::new(expression.outcome->Ok_0))),
                rest: expression.rest.drop_first(),
            }
        } else {
            expression
        }
    }
}

/// `ParameterDeclaration`: a name, `:`, a type, and a `,` if one follows.
pub open spec fn parameter_declaration_rule(tokens: Seq<TokenView>) -> Parsed<NodeView> {
    let name = identifier_rule(tokens);
    let colon = expect_rule(name.rest, TokenView::Colon);
    let parameter_type = type_rule(colon.rest);
    if name.outcome is Err {
        Parsed { outcome: Err(name.outcome->Err_0), rest: name.rest }
    } else if colon.outcome is Err {
        Parsed { outcome: Err(colon.outcome->Err_0), rest: colon.rest }
    } else if parameter_type.outcome is Err {
        Parsed { outcome: Err(parameter_type.outcome->Err_0), rest: parameter_type.rest }
    } else {
        Parsed {
            outcome: Ok(
                NodeView::ParameterDeclaration {
                    name: name.outcome->Ok_0,
                    parameter_type: Box::new(parameter_type.outcome->Ok_0),
                },
            ),
            rest: skip_optional(parameter_type.rest, TokenView::Comma),
        }
    }
}

/// Items of one kind, one after the other, up to the token `end`, which is
/// taken too. With no `end` the items go on to the end of the tokens. Tokens
/// that end before `end` is met are a mismatch, and so is the first item
/// that fails.
///
/// An item that succeeds without taking a token would repeat for ever. No
/// item of this grammar does; for one that did, the rule gives an error with
/// an empty message.
pub open spec fn repeated_rule(
    tokens: Seq<TokenView>,
    item: spec_fn(Seq<TokenView>) -> Parsed<NodeView>,
    end: Option<TokenView>,
) -> Parsed<Seq<NodeView>>
    decreases tokens.len(),
{
    if tokens.len() == 0 {
        if end is None {
            Parsed { outcome: Ok(Seq::empty()), rest: tokens }
        } else {
            Parsed { outcome: Err(unexpected_end_message()), rest: tokens }
        }
    } else if end == Some(tokens[0]) {
        Parsed { outcome: Ok(Seq::empty()), rest: tokens.drop_first() }
    } else {
        let first = item(tokens);
        match first.outcome {
            Err(message) => Parsed { outcome: Err(message), rest: first.rest },
            Ok(node) => {
                if first.rest.len() < tokens.len() {
                    let others = repeated_rule(first.rest, item, end);
                    match others.outcome {
                        Err(message) => Parsed { outcome: Err(message), rest: others.rest },
                        Ok(nodes) => Parsed { outcome: Ok(seq![node] + nodes), rest: others.rest },
                    }
                } else {
                    Parsed { outcome: Err(Seq::empty()), rest: first.rest }
                }
            },
        }
    }
}

/// `parsed`, with `nodes` put before the nodes that it gives.
pub open spec fn prefixed(nodes: Seq<NodeView>, parsed: Parsed<Seq<NodeView>>) -> Parsed<
    Seq<NodeView>,
> {
    match parsed.outcome {
        Ok(more) => Parsed { outcome: Ok(nodes + more), rest: parsed.rest },
        Err(message) => Parsed { outcome: Err(message), rest: parsed.rest },
    }
}

/// Repeated items that succeed leave no more tokens than they were given.
pub proof fn lemma_repeated_rule_rest(
    tokens: Seq<TokenView>,
    item: spec_fn(Seq<TokenView>) -> Parsed<NodeView>,
    end: Option<TokenView>,
)
    ensures
        repeated_rule(tokens, item, end).outcome is Ok ==> repeated_rule(
            tokens,
            item,
            end,
        ).rest.len() <= tokens.len(),
    decreases tokens.len(),
{
    if tokens.len() > 0 && end != Some(tokens[0]) {
        let first = item(tokens);
        if first.outcome is Ok && first.rest.len() < tokens.len() {
            lemma_repeated_rule_rest(first.rest, item, end);
        }
    }
}

/// Items repeated to the end of the tokens leave no token when they succeed.
pub proof fn lemma_repeated_to_the_end(
    tokens: Seq<TokenView>,
    item: spec_fn(Seq<TokenView>) -> Parsed<NodeView>,
)
    ensures
        repeated_rule(tokens, item, None).outcome is Ok ==> repeated_rule(
            tokens,
            item,
            None,
        ).rest.len() == 0,
    decreases tokens.len(),
{
    if tokens.len() > 0 {
        let first = item(tokens);
        if first.outcome is Ok && first.rest.len() < tokens.len() {
            lemma_repeated_to_the_end(first.rest, item);
        }
    }
}

/// A program that parses has taken every token: one that is left over is a
/// syntax error.
pub proof fn lemma_program_takes_every_token(tokens: Seq<TokenView>)
    ensures
        program_rule(tokens).outcome is Ok ==> program_rule(tokens).rest.len() == 0,
{
    lemma_repeated_to_the_end(tokens, |tokens: Seq<TokenView>| global_item_rule(tokens));
}

/// A parameter declaration that succeeds has taken at least one token.
pub proof fn lemma_parameter_takes_tokens(tokens: Seq<TokenView>)
    ensures
        parameter_declaration_rule(tokens).outcome is Ok ==> parameter_declaration_rule(
            tokens,
        ).rest.len() < tokens.len(),
{
}

/// A statement that succeeds has taken at least one token.
pub proof fn lemma_statement_takes_tokens(tokens: Seq<TokenView>)
    ensures
        statement_rule(tokens).outcome is Ok ==> statement_rule(tokens).rest.len() < tokens.len(),
{
}

/// A block that succeeds has taken at least one token.
pub proof fn lemma_block_takes_tokens(tokens: Seq<TokenView>)
    ensures
        block_rule(tokens).outcome is Ok ==> block_rule(tokens).rest.len() < tokens.len(),
{
    let brace = expect_rule(tokens, TokenView::LeftBrace);
    lemma_repeated_rule_rest(
        brace.rest,
        |tokens: Seq<TokenView>| statement_rule(tokens),
        Some(TokenView::RightBrace),
    );
}

/// A global item that succeeds has taken at least one token.
pub proof fn lemma_global_item_takes_tokens(tokens: Seq<TokenView>)
    ensures
        global_item_rule(tokens).outcome is Ok ==> global_item_rule(tokens).rest.len()
            < tokens.len(),
{
    if starts_with(tokens, TokenView::Function) {
        let name = identifier_rule(tokens.drop_first());
        let paren = expect_rule(name.rest, TokenView::LeftParen);
        lemma_repeated_rule_rest(
            paren.rest,
            |tokens: Seq<TokenView>| parameter_declaration_rule(tokens),
            Some(TokenView::RightParen),
        );
        let parameters = repeated_rule(
            paren.rest,
            |tokens: Seq<TokenView>| parameter_declaration_rule(tokens),
            Some(TokenView::RightParen),
        );
        let arrow = expect_rule(parameters.rest, TokenView::Arrow);
        let return_type = type_rule(arrow.rest);
        lemma_block_takes_tokens(return_type.rest);
    }
}

/// `Block`: `{`, statements, `}`.
pub open spec fn block_rule(tokens: Seq<TokenView>) -> Parsed<NodeView> {
    let brace = expect_rule(tokens, TokenView::LeftBrace);
    let statements = repeated_rule(
        brace.rest,
        |tokens: Seq<TokenView>| statement_rule(tokens),
        Some(TokenView::RightBrace),
    );
    if brace.outcome is Err {
        Parsed { outcome: Err(brace.outcome->Err_0), rest: brace.rest }
    } else if statements.outcome is Err {
        Parsed { outcome: Err(statements.outcome->Err_0), rest: statements.rest }
    } else {
        Parsed { outcome: Ok(NodeView::List(statements.outcome->Ok_0)), rest: statements.rest }
    }
}

/// `FunctionDefinition`, from behind its keyword on: a name, `(`, parameters,
/// `)`, `->`, a return type and a block. A name that is missing is a
/// mismatch that takes no token.
pub open spec fn function_rule(tokens: Seq<TokenView>) -> Parsed<NodeView> {
    let after_keyword = tokens.drop_first();
    let name = identifier_rule(after_keyword);
    let paren = expect_rule(name.rest, TokenView::LeftParen);
    let parameters = repeated_rule(
        paren.rest,
        |tokens: Seq<TokenView>| parameter_declaration_rule(tokens),
        Some(TokenView::RightParen),
    );
    let arrow = expect_rule(parameters.rest, TokenView::Arrow);
    let return_type = type_rule(arrow.rest);
    let body = block_rule(return_type.rest);
    if name.outcome is Err {
        Parsed { outcome: Err(name.outcome->Err_0), rest: after_keyword }
    } else if paren.outcome is Err {
        Parsed { outcome: Err(paren.outcome->Err_0), rest: paren.rest }
    } else if parameters.outcome is Err {
        Parsed { outcome: Err(parameters.outcome->Err_0), rest: parameters.rest }
    } else if arrow.outcome is Err {
        Parsed { outcome: Err(arrow.outcome->Err_0), rest: arrow.rest }
    } else if return_type.outcome is Err {
        Parsed { outcome: Err(return_type.outcome->Err_0), rest: return_type.rest }
    } else if body.outcome is Err {
        Parsed { outcome: Err(body.outcome->Err_0), rest: body.rest }
    } else {
        Parsed {
            outcome: Ok(
                NodeView::FunctionDefinition {
                    name: name.outcome->Ok_0,
                    parameters: parameters.outcome->Ok_0,
                    return_type: Box::new(return_type.outcome->Ok_0),
                    body: Box::new(body.outcome->Ok_0),
                },
            ),
            rest: body.rest,
        }
    }
}

/// `GlobalItem`: a function definition. Any other token is a mismatch that
/// takes no token.
pub open spec fn global_item_rule(tokens: Seq<TokenView>) -> Parsed<NodeView> {
    if starts_with(tokens, TokenView::Function) {
        function_rule(tokens)
    } else {
        Parsed { outcome: Err(unexpected_message(tokens)), rest: tokens }
    }
}

/// `Program`: global items to the end of the tokens.
pub open spec fn program_rule(tokens: Seq<TokenView>) -> Parsed<NodeView> {
    let items = repeated_rule(
        tokens,
        |tokens: Seq<TokenView>| global_item_rule(tokens),
        None,
    );
    match items.outcome {
        Err(message) => Parsed { outcome: Err(message), rest: items.rest },
        Ok(nodes) => Parsed { outcome: Ok(NodeView::List(nodes)), rest: items.rest },
    }
}

} // verus!
