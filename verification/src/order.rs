//! Which matcher decides when several could: the first in registration
//! order. Keywords and the names of the primitive types are registered before
//! the identifier matcher, so a text that is both is the keyword.

use crate::languages::{is_identifier, lemma_identifier_language};
use crate::matcher::{registry, Candidate, ExactParser, ExactToken, IdentifierParser};
use crate::munch::{alive_among, first_complete, recognize, winner};
use crate::token::TokenView;
use vstd::prelude::*;

verus! {

/// Whether the matcher accepts all of `text` and can complete on it.
pub open spec fn completes(candidate: Candidate, text: Seq<char>) -> bool {
    candidate.run(text) matches Some(state) && state.finish(text) is Some
}

/// The place of a keyword or type name in the registration order.
pub open spec fn keyword_rank(token: ExactToken) -> int {
    match token {
        ExactToken::Function => 0,
        ExactToken::Let => 1,
        ExactToken::Mut => 2,
        ExactToken::If => 3,
        ExactToken::Else => 4,
        ExactToken::I8 => 5,
        ExactToken::I16 => 6,
        ExactToken::I32 => 7,
        ExactToken::I64 => 8,
        ExactToken::Iptr => 9,
        ExactToken::U8 => 10,
        ExactToken::U16 => 11,
        ExactToken::U32 => 12,
        ExactToken::U64 => 13,
        ExactToken::Uptr => 14,
        ExactToken::F32 => 15,
        ExactToken::F64 => 16,
        ExactToken::Bool => 17,
        ExactToken::CharType => 18,
        ExactToken::StringType => 19,
        _ => -1,
    }
}

/// The matchers alive among two groups are those alive in the first, then
/// those alive in the second.
pub proof fn lemma_alive_among_concat(first: Seq<Candidate>, second: Seq<Candidate>, text: Seq<char>)
    ensures
        alive_among(first + second, text) == alive_among(first, text) + alive_among(second, text),
    decreases second.len(),
{
    if second.len() == 0 {
        assert(first + second =~= first);
        assert(alive_among(first, text) + alive_among(second, text) =~= alive_among(first, text));
    } else {
        lemma_alive_among_concat(first, second.drop_last(), text);
        assert((first + second).drop_last() =~= first + second.drop_last());
        assert((first + second).last() == second.last());
        let before = alive_among(first, text) + alive_among(second.drop_last(), text);
        match second.last().run(text) {
            Some(state) => {
                assert(before.push(state) =~= alive_among(first, text) + alive_among(
                    second.drop_last(),
                    text,
                ).push(state));
            },
            None => {},
        }
    }
}

/// The first of two groups of states that can complete is the first of the
/// first group, if there is one, else the first of the second.
pub proof fn lemma_first_complete_concat(first: Seq<Candidate>, second: Seq<Candidate>, text: Seq<char>)
    ensures
        first_complete(first + second, text) == if first_complete(first, text) is Some {
            first_complete(first, text)
        } else {
            first_complete(second, text)
        },
    decreases first.len(),
{
    if first.len() == 0 {
        assert(first + second =~= second);
    } else {
        assert((first + second).first() == first.first());
        assert((first + second).drop_first() =~= first.drop_first() + second);
        lemma_first_complete_concat(first.drop_first(), second, text);
    }
}

/// A single state is the first to complete if it can complete at all.
pub proof fn lemma_first_complete_single(state: Candidate, text: Seq<char>)
    ensures
        first_complete(seq![state], text) == if state.finish(text) is Some {
            Some(state)
        } else {
            None
        },
{
    assert(seq![state].first() == state);
    assert(seq![state].drop_first() =~= Seq::<Candidate>::empty());
    assert(first_complete(Seq::<Candidate>::empty(), text) is None);
}

/// Among matchers of which none completes on `text`, none alive can complete.
pub proof fn lemma_none_completes(candidates: Seq<Candidate>, text: Seq<char>)
    requires
        forall|j: int| 0 <= j < candidates.len() ==> !completes(#[trigger] candidates[j], text),
    ensures
        first_complete(alive_among(candidates, text), text) is None,
    decreases candidates.len(),
{
    if candidates.len() > 0 {
        let before = candidates.drop_last();
        assert forall|j: int| 0 <= j < before.len() implies !completes(
            #[trigger] before[j],
            text,
        ) by {
            assert(before[j] == candidates[j]);
        }
        lemma_none_completes(before, text);
        assert(!completes(candidates[candidates.len() - 1], text));
        match candidates.last().run(text) {
            Some(state) => {
                assert(alive_among(candidates, text) =~= alive_among(before, text) + seq![state]);
                lemma_first_complete_concat(alive_among(before, text), seq![state], text);
                lemma_first_complete_single(state, text);
            },
            None => {},
        }
    }
}

/// Registration order decides: the token of a text is the one made by the
/// first registered matcher that accepts the text and can complete on it.
pub proof fn lemma_first_registered_decides(text: Seq<char>, i: int)
    requires
        0 <= i < registry().len(),
        completes(registry()[i], text),
        forall|j: int| 0 <= j < i ==> !completes(#[trigger] registry()[j], text),
    ensures
        winner(text) == registry()[i].run(text),
        recognize(text) == registry()[i].run(text).unwrap().finish(text),
{
    let earlier = registry().take(i);
    let later = registry().skip(i + 1);
    let decisive = seq![registry()[i]];
    let state = registry()[i].run(text).unwrap();
    assert(registry() =~= earlier + decisive + later);
    lemma_alive_among_concat(earlier + decisive, later, text);
    lemma_alive_among_concat(earlier, decisive, text);
    assert(decisive.drop_last() =~= Seq::<Candidate>::empty());
    assert(alive_among(Seq::<Candidate>::empty(), text) =~= Seq::<Candidate>::empty());
    assert(decisive.last() == registry()[i]);
    assert(alive_among(decisive, text) =~= seq![state]);
    lemma_first_complete_single(state, text);
    assert forall|j: int| 0 <= j < earlier.len() implies !completes(#[trigger] earlier[j], text) by {
        assert(earlier[j] == registry()[j]);
    }
    lemma_none_completes(earlier, text);
    lemma_first_complete_concat(
        alive_among(earlier, text) + seq![state],
        alive_among(later, text),
        text,
    );
    lemma_first_complete_concat(alive_among(earlier, text), seq![state], text);
}

/// A text on which no registered matcher completes is no token.
pub proof fn lemma_no_matcher_no_token(text: Seq<char>)
    requires
        forall|j: int| 0 <= j < registry().len() ==> !completes(#[trigger] registry()[j], text),
    ensures
        recognize(text) is None,
{
    lemma_none_completes(registry(), text);
}

/// The matcher of a fixed text accepts exactly the beginnings of that text,
/// and counts what it has read.
pub proof fn lemma_exact_run(token: ExactToken, text: Seq<char>)
    ensures
        Candidate::Exact(ExactParser { token, offset: 0 }).run(text) == if text.len()
            <= token.text().len() && text == token.text().take(text.len() as int) {
            Some(Candidate::Exact(ExactParser { token, offset: text.len() as usize }))
        } else {
            None
        },
    decreases text.len(),
{
    lemma_texts_are_short(token);
    let whole = token.text();
    if text.len() > 0 {
        let shorter = text.drop_last();
        lemma_exact_run(token, shorter);
        if shorter.len() <= whole.len() && shorter == whole.take(shorter.len() as int) {
            if text.len() <= whole.len() && text.last() == whole[text.len() - 1] {
                assert(text =~= whole.take(text.len() as int));
            } else if text.len() <= whole.len() {
                assert(whole.take(text.len() as int)[text.len() - 1] == whole[text.len() - 1]);
            }
        } else {
            if text.len() <= whole.len() && text == whole.take(text.len() as int) {
                assert(shorter =~= whole.take(shorter.len() as int));
            }
        }
    } else {
        assert(text =~= whole.take(0));
    }
}

/// No fixed text has more than eight characters.
pub proof fn lemma_texts_are_short(token: ExactToken)
    ensures
        token.text().len() <= 8,
{
    reveal_strlit("(");
    reveal_strlit(")");
    reveal_strlit("{");
    reveal_strlit("}");
    reveal_strlit("[");
    reveal_strlit("]");
    reveal_strlit(",");
    reveal_strlit(".");
    reveal_strlit(":");
    reveal_strlit(";");
    reveal_strlit("+");
    reveal_strlit("-");
    reveal_strlit("*");
    reveal_strlit("/");
    reveal_strlit("%");
    reveal_strlit("->");
    reveal_strlit("=");
    reveal_strlit("function");
    reveal_strlit("let");
    reveal_strlit("mut");
    reveal_strlit("if");
    reveal_strlit("else");
    reveal_strlit("i8");
    reveal_strlit("i16");
    reveal_strlit("i32");
    reveal_strlit("i64");
    reveal_strlit("iptr");
    reveal_strlit("u8");
    reveal_strlit("u16");
    reveal_strlit("u32");
    reveal_strlit("u64");
    reveal_strlit("uptr");
    reveal_strlit("f32");
    reveal_strlit("f64");
    reveal_strlit("bool");
    reveal_strlit("char");
    reveal_strlit("string");
}

/// Different fixed tokens stand for different texts.
pub proof fn lemma_texts_differ(first: ExactToken, second: ExactToken)
    requires
        first != second,
    ensures
        first.text() != second.text(),
{
    reveal_strlit("(");
    reveal_strlit(")");
    reveal_strlit("{");
    reveal_strlit("}");
    reveal_strlit("[");
    reveal_strlit("]");
    reveal_strlit(",");
    reveal_strlit(".");
    reveal_strlit(":");
    reveal_strlit(";");
    reveal_strlit("+");
    reveal_strlit("-");
    reveal_strlit("*");
    reveal_strlit("/");
    reveal_strlit("%");
    reveal_strlit("->");
    reveal_strlit("=");
    reveal_strlit("function");
    reveal_strlit("let");
    reveal_strlit("mut");
    reveal_strlit("if");
    reveal_strlit("else");
    reveal_strlit("i8");
    reveal_strlit("i16");
    reveal_strlit("i32");
    reveal_strlit("i64");
    reveal_strlit("iptr");
    reveal_strlit("u8");
    reveal_strlit("u16");
    reveal_strlit("u32");
    reveal_strlit("u64");
    reveal_strlit("uptr");
    reveal_strlit("f32");
    reveal_strlit("f64");
    reveal_strlit("bool");
    reveal_strlit("char");
    reveal_strlit("string");
    if first.text() == second.text() {
        assert(first.text().len() == second.text().len());
        assert(first.text()[0] == second.text()[0]);
        if first.text().len() > 1 {
            assert(first.text()[1] == second.text()[1]);
        }
        if first.text().len() > 2 {
            assert(first.text()[2] == second.text()[2]);
        }
    }
}

/// The keywords and type names come first in the registration order, each at
/// its rank.
pub proof fn lemma_keywords_come_first(j: int)
    requires
        0 <= j < 20,
    ensures
        registry()[j] matches Candidate::Exact(parser) && parser.offset == 0
            && parser.token.is_keyword() && keyword_rank(parser.token) == j,
{
}

/// A keyword is registered at its rank.
pub proof fn lemma_keyword_is_registered(token: ExactToken)
    requires
        token.is_keyword(),
    ensures
        0 <= keyword_rank(token) < 20,
        registry()[keyword_rank(token)] == Candidate::Exact(ExactParser { token, offset: 0 }),
{
}

/// Keywords before identifiers: the text of a keyword or of a type name is
/// that keyword, whatever the identifier matcher makes of it.
pub proof fn lemma_keyword_wins(token: ExactToken)
    requires
        token.is_keyword(),
    ensures
        recognize(token.text()) == Some(token.token()),
{
    let text = token.text();
    let rank = keyword_rank(token);
    lemma_keyword_is_registered(token);
    lemma_texts_are_short(token);
    lemma_exact_run(token, text);
    assert(text =~= text.take(text.len() as int));
    assert forall|j: int| 0 <= j < rank implies !completes(#[trigger] registry()[j], text) by {
        lemma_keywords_come_first(j);
        let other = registry()[j]->Exact_0.token;
        lemma_exact_run(other, text);
        lemma_texts_differ(other, token);
        lemma_texts_are_short(other);
        if completes(registry()[j], text) {
            assert(other.text().take(text.len() as int) =~= other.text());
        }
    }
    lemma_first_registered_decides(text, rank);
}

/// An identifier that is not spelled like a keyword or a type name is an
/// identifier token, whatever keywords it begins with.
pub proof fn lemma_identifier_wins(text: Seq<char>)
    requires
        is_identifier(text),
        forall|token: ExactToken| token.is_keyword() ==> #[trigger] token.text() != text,
    ensures
        recognize(text) == Some(TokenView::Identifier(text)),
{
    assert(registry()[20] == Candidate::Identifier(IdentifierParser { started: false }));
    lemma_identifier_language(text);
    assert forall|j: int| 0 <= j < 20 implies !completes(#[trigger] registry()[j], text) by {
        lemma_keywords_come_first(j);
        let other = registry()[j]->Exact_0.token;
        lemma_exact_run(other, text);
        lemma_texts_are_short(other);
        if completes(registry()[j], text) {
            assert(other.text().take(text.len() as int) =~= other.text());
            assert(other.text() != text);
        }
    }
    lemma_first_registered_decides(text, 20);
}

} // verus!
