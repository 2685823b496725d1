//! What holds of every syntax error: it names a token of the input, or the
//! end of the input, and the parser has read no further than a part of the
//! input that it was given.

use crate::ast::NodeView;
use crate::grammar::{
    block_rule, expect_rule, expression_rule, function_rule, global_item_rule, identifier_rule,
    lemma_global_item_takes_tokens, lemma_parameter_takes_tokens, lemma_statement_takes_tokens,
    parameter_declaration_rule, program_rule, repeated_rule, skip_optional, statement_rule,
    type_rule, unexpected_end_message, unexpected_token_message, variable_definition_rule, Parsed,
};
use crate::token::TokenView;
use vstd::prelude::*;

verus! {

/// Whether `rest` is what is left of `tokens` when some of them are taken
/// from the front.
pub open spec fn is_rest_of(rest: Seq<TokenView>, tokens: Seq<TokenView>) -> bool {
    rest.len() <= tokens.len() && rest == tokens.skip(tokens.len() - rest.len())
}

/// Whether `message` reports one of `tokens` as unexpected, or their end.
pub open spec fn reports_mismatch(message: Seq<char>, tokens: Seq<TokenView>) -> bool {
    message == unexpected_end_message() || exists|i: int|
        0 <= i < tokens.len() && message == unexpected_token_message(#[trigger] tokens[i])
}

/// Whether what a rule made of `tokens` is sound: it has left a rest of the
/// tokens, and if it failed, its message reports a mismatch in them.
pub open spec fn is_sound<T>(parsed: Parsed<T>, tokens: Seq<TokenView>) -> bool {
    &&& is_rest_of(parsed.rest, tokens)
    &&& parsed.outcome matches Err(message) ==> reports_mismatch(message, tokens)
}

/// Whether a rule for items is sound on all tokens, and takes a token
/// whenever it succeeds.
pub open spec fn is_sound_item(item: spec_fn(Seq<TokenView>) -> Parsed<NodeView>) -> bool {
    forall|tokens: Seq<TokenView>|
        is_sound(#[trigger] item(tokens), tokens) && (item(tokens).outcome is Ok ==> item(
            tokens,
        ).rest.len() < tokens.len())
}

/// A rest of a rest is a rest, and a mismatch in a rest is one in the whole.
pub proof fn lemma_sound_after<T>(parsed: Parsed<T>, middle: Seq<TokenView>, tokens: Seq<TokenView>)
    requires
        is_rest_of(middle, tokens),
        is_sound(parsed, middle),
    ensures
        is_sound(parsed, tokens),
{
    let skipped = tokens.len() - middle.len();
    assert(parsed.rest =~= tokens.skip(tokens.len() - parsed.rest.len()));
    if let Err(message) = parsed.outcome {
        if message != unexpected_end_message() {
            let i = choose|i: int|
                0 <= i < middle.len() && message == unexpected_token_message(#[trigger] middle[i]);
            assert(tokens[i + skipped] == middle[i]);
        }
    }
}

/// The rules that take one token are sound.
pub proof fn lemma_sound_steps(tokens: Seq<TokenView>, expected: TokenView)
    ensures
        is_sound(expect_rule(tokens, expected), tokens),
        is_sound(identifier_rule(tokens), tokens),
        is_sound(type_rule(tokens), tokens),
        is_sound(expression_rule(tokens), tokens),
        is_rest_of(skip_optional(tokens, expected), tokens),
        is_rest_of(tokens, tokens),
{
    assert(tokens =~= tokens.skip(0));
    if tokens.len() > 0 {
        assert(tokens.drop_first() =~= tokens.skip(1));
        assert(unexpected_token_message(tokens[0]) == unexpected_token_message(tokens[0]));
    }
}

/// The rule for variable definitions is sound.
pub proof fn lemma_sound_variable_definition(tokens: Seq<TokenView>)
    ensures
        is_sound(variable_definition_rule(tokens), tokens),
{
    let keyword = expect_rule(tokens, TokenView::Let);
    let after_mut = skip_optional(keyword.rest, TokenView::Mut);
    let name = identifier_rule(after_mut);
    let colon = expect_rule(name.rest, TokenView::Colon);
    let variable_type = type_rule(colon.rest);
    let equals = expect_rule(variable_type.rest, TokenView::Equals);
    let value = expression_rule(equals.rest);
    let semicolon = expect_rule(value.rest, TokenView::Semicolon);
    lemma_sound_steps(tokens, TokenView::Let);
    lemma_sound_steps(keyword.rest, TokenView::Mut);
    lemma_sound_after(Parsed::<()> { outcome: Ok(()), rest: after_mut }, keyword.rest, tokens);
    lemma_sound_steps(after_mut, TokenView::Mut);
    lemma_sound_after(name, after_mut, tokens);
    lemma_sound_steps(name.rest, TokenView::Colon);
    lemma_sound_after(colon, name.rest, tokens);
    lemma_sound_steps(colon.rest, TokenView::Colon);
    lemma_sound_after(variable_type, colon.rest, tokens);
    lemma_sound_steps(variable_type.rest, TokenView::Equals);
    lemma_sound_after(equals, variable_type.rest, tokens);
    lemma_sound_steps(equals.rest, TokenView::Equals);
    lemma_sound_after(value, equals.rest, tokens);
    lemma_sound_steps(value.rest, TokenView::Semicolon);
    lemma_sound_after(semicolon, value.rest, tokens);
}

/// The rule for statements is sound.
pub proof fn lemma_sound_statement(tokens: Seq<TokenView>)
    ensures
        is_sound(statement_rule(tokens), tokens),
{
    lemma_sound_variable_definition(tokens);
    lemma_sound_steps(tokens, TokenView::Semicolon);
    let expression = expression_rule(tokens);
    lemma_sound_steps(expression.rest, TokenView::Semicolon);
    lemma_sound_after(
        Parsed::<()> { outcome: Ok(()), rest: skip_optional(expression.rest, TokenView::Semicolon) },
        expression.rest,
        tokens,
    );
}

/// The rule for parameter declarations is sound.
pub proof fn lemma_sound_parameter_declaration(tokens: Seq<TokenView>)
    ensures
        is_sound(parameter_declaration_rule(tokens), tokens),
{
    let name = identifier_rule(tokens);
    let colon = expect_rule(name.rest, TokenView::Colon);
    let parameter_type = type_rule(colon.rest);
    lemma_sound_steps(tokens, TokenView::Colon);
    lemma_sound_steps(name.rest, TokenView::Colon);
    lemma_sound_after(colon, name.rest, tokens);
    lemma_sound_steps(colon.rest, TokenView::Colon);
    lemma_sound_after(parameter_type, colon.rest, tokens);
    lemma_sound_steps(parameter_type.rest, TokenView::Comma);
    lemma_sound_after(
        Parsed::<()> {
            outcome: Ok(()),
            rest: skip_optional(parameter_type.rest, TokenView::Comma),
        },
        parameter_type.rest,
        tokens,
    );
}

/// Repeating a sound rule for items is sound.
pub proof fn lemma_sound_repeated(
    tokens: Seq<TokenView>,
    item: spec_fn(Seq<TokenView>) -> Parsed<NodeView>,
    end: Option<TokenView>,
)
    requires
        is_sound_item(item),
    ensures
        is_sound(repeated_rule(tokens, item, end), tokens),
    decreases tokens.len(),
{
    lemma_sound_steps(tokens, TokenView::Comma);
    if tokens.len() > 0 && end != Some(tokens[0]) {
        let first = item(tokens);
        assert(is_sound(first, tokens));
        if first.outcome is Ok {
            lemma_sound_repeated(first.rest, item, end);
            lemma_sound_after(repeated_rule(first.rest, item, end), first.rest, tokens);
        }
    }
}

/// The rule for statements is a sound rule for items.
pub proof fn lemma_sound_statement_item()
    ensures
        is_sound_item(|tokens: Seq<TokenView>| statement_rule(tokens)),
{
    let statement = |tokens: Seq<TokenView>| statement_rule(tokens);
    assert forall|tokens: Seq<TokenView>|
        is_sound(#[trigger] statement(tokens), tokens) && (statement(tokens).outcome is Ok
            ==> statement(tokens).rest.len() < tokens.len()) by {
        lemma_sound_statement(tokens);
        lemma_statement_takes_tokens(tokens);
    }
}

/// The rule for parameter declarations is a sound rule for items.
pub proof fn lemma_sound_parameter_item()
    ensures
        is_sound_item(|tokens: Seq<TokenView>| parameter_declaration_rule(tokens)),
{
    let parameter = |tokens: Seq<TokenView>| parameter_declaration_rule(tokens);
    assert forall|tokens: Seq<TokenView>|
        is_sound(#[trigger] parameter(tokens), tokens) && (parameter(tokens).outcome is Ok
            ==> parameter(tokens).rest.len() < tokens.len()) by {
        lemma_sound_parameter_declaration(tokens);
        lemma_parameter_takes_tokens(tokens);
    }
}

/// The rule for blocks is sound.
pub proof fn lemma_sound_block(tokens: Seq<TokenView>)
    ensures
        is_sound(block_rule(tokens), tokens),
{
    let statement = |tokens: Seq<TokenView>| statement_rule(tokens);
    lemma_sound_statement_item();
    let brace = expect_rule(tokens, TokenView::LeftBrace);
    lemma_sound_steps(tokens, TokenView::LeftBrace);
    lemma_sound_repeated(brace.rest, statement, Some(TokenView::RightBrace));
    lemma_sound_after(
        repeated_rule(brace.rest, statement, Some(TokenView::RightBrace)),
        brace.rest,
        tokens,
    );
}

/// The rule for function definitions is sound, where the keyword stands.
pub proof fn lemma_sound_function(tokens: Seq<TokenView>)
    requires
        tokens.len() > 0,
    ensures
        is_sound(function_rule(tokens), tokens),
{
    let parameter = |tokens: Seq<TokenView>| parameter_declaration_rule(tokens);
    lemma_sound_parameter_item();
    let after_keyword = tokens.drop_first();
    let name = identifier_rule(after_keyword);
    let paren = expect_rule(name.rest, TokenView::LeftParen);
    let parameters = repeated_rule(paren.rest, parameter, Some(TokenView::RightParen));
    let arrow = expect_rule(parameters.rest, TokenView::Arrow);
    let return_type = type_rule(arrow.rest);
    let body = block_rule(return_type.rest);
    lemma_sound_steps(tokens, TokenView::Function);
    assert(is_rest_of(after_keyword, tokens)) by {
        assert(after_keyword =~= tokens.skip(1));
    }
    lemma_sound_steps(after_keyword, TokenView::LeftParen);
    lemma_sound_after(name, after_keyword, tokens);
    if let Err(message) = name.outcome {
        lemma_sound_after(
            Parsed::<NodeView> { outcome: Err(message), rest: after_keyword },
            after_keyword,
            tokens,
        );
    }
    lemma_sound_steps(name.rest, TokenView::LeftParen);
    lemma_sound_after(paren, name.rest, tokens);
    lemma_sound_repeated(paren.rest, parameter, Some(TokenView::RightParen));
    lemma_sound_after(parameters, paren.rest, tokens);
    lemma_sound_steps(parameters.rest, TokenView::Arrow);
    lemma_sound_after(arrow, parameters.rest, tokens);
    lemma_sound_steps(arrow.rest, TokenView::Arrow);
    lemma_sound_after(return_type, arrow.rest, tokens);
    lemma_sound_block(return_type.rest);
    lemma_sound_after(body, return_type.rest, tokens);
}

/// The rule for global items is sound.
pub proof fn lemma_sound_global_item(tokens: Seq<TokenView>)
    ensures
        is_sound(global_item_rule(tokens), tokens),
{
    lemma_sound_steps(tokens, TokenView::Function);
    if tokens.len() > 0 {
        lemma_sound_function(tokens);
        assert(unexpected_token_message(tokens[0]) == unexpected_token_message(tokens[0]));
    }
}

/// Every syntax error reports one of the tokens of the input as unexpected,
/// or the end of the input; and what the parser leaves unread is a rest of
/// the input.
pub proof fn lemma_sound_program(tokens: Seq<TokenView>)
    ensures
        is_sound(program_rule(tokens), tokens),
{
    let global_item = |tokens: Seq<TokenView>| global_item_rule(tokens);
    assert forall|tokens: Seq<TokenView>|
        is_sound(#[trigger] global_item(tokens), tokens) && (global_item(tokens).outcome is Ok
            ==> global_item(tokens).rest.len() < tokens.len()) by {
        lemma_sound_global_item(tokens);
        lemma_global_item_takes_tokens(tokens);
    }
    lemma_sound_repeated(tokens, global_item, None);
}

} // verus!
