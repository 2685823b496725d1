//! Longest match over all matchers at once.
//!
//! The tokenizer explores every lexical category in parallel: it feeds each
//! character to every matcher that is still alive and goes on for as long as
//! at least one of them accepts. The text read when none accepts is the
//! longest that any matcher could follow, and the first matcher in
//! registration order that can complete on it decides the token.

use crate::matcher::{initial_candidates, registry, Candidate};
use crate::token::{Token, TokenView};
use vstd::prelude::*;

verus! {

/// The states of those of `candidates` that accept all of `text`, in the
/// order of `candidates`.
pub open spec fn alive_among(candidates: Seq<Candidate>, text: Seq<char>) -> Seq<Candidate>
    decreases candidates.len(),
{
    if candidates.len() == 0 {
        Seq::empty()
    } else {
        let before = alive_among(candidates.drop_last(), text);
        match candidates.last().run(text) {
            Some(state) => before.push(state),
            None => before,
        }
    }
}

/// The states of the registered matchers that accept all of `text`, in
/// registration order.
pub open spec fn alive(text: Seq<char>) -> Seq<Candidate> {
    alive_among(registry(), text)
}

/// Whether some registered matcher accepts all of `text`.
pub open spec fn viable(text: Seq<char>) -> bool {
    alive(text).len() > 0
}

/// The successors of those of `states` that accept `character`, in the order
/// of `states`.
pub open spec fn narrow(states: Seq<Candidate>, character: char) -> Seq<Candidate>
    decreases states.len(),
{
    if states.len() == 0 {
        Seq::empty()
    } else {
        let before = narrow(states.drop_last(), character);
        match states.last().advance(character) {
            Some(state) => before.push(state),
            None => before,
        }
    }
}

/// The first of `states` that can complete on `text`.
pub open spec fn first_complete(states: Seq<Candidate>, text: Seq<char>) -> Option<Candidate>
    decreases states.len(),
{
    if states.len() == 0 {
        None
    } else if states.first().finish(text) is Some {
        Some(states.first())
    } else {
        first_complete(states.drop_first(), text)
    }
}

/// The matcher that decides what `text` is: the first in registration order
/// that accepts all of `text` and can complete on it.
pub open spec fn winner(text: Seq<char>) -> Option<Candidate> {
    first_complete(alive(text), text)
}

/// The token that `text` is, if it is one.
pub open spec fn recognize(text: Seq<char>) -> Option<TokenView> {
    match winner(text) {
        Some(state) => state.finish(text),
        None => None,
    }
}

/// The length of the longest viable text that starts at `start` in `input`,
/// given that the text of length `length` there is viable.
pub open spec fn extend(input: Seq<char>, start: int, length: int) -> int
    decreases input.len() - start - length,
{
    if 0 <= start && 0 <= length && start + length < input.len() && viable(
        input.subrange(start, start + length + 1),
    ) {
        extend(input, start, length + 1)
    } else {
        length
    }
}

/// The length of the longest viable text that starts at `start` in `input`:
/// reading stops at the first character that no matcher accepts, or at the
/// end of the input.
pub open spec fn munch(input: Seq<char>, start: int) -> int {
    extend(input, start, 0)
}

/// With nothing read, every candidate is alive and in its own state.
pub proof fn lemma_alive_nothing_read(candidates: Seq<Candidate>)
    ensures
        alive_among(candidates, Seq::empty()) == candidates,
    decreases candidates.len(),
{
    if candidates.len() > 0 {
        lemma_alive_nothing_read(candidates.drop_last());
        assert(candidates.drop_last().push(candidates.last()) =~= candidates);
    }
}

/// Reading one more character narrows the matchers alive so far to those that
/// accept it.
pub proof fn lemma_alive_among_step(candidates: Seq<Candidate>, text: Seq<char>, character: char)
    ensures
        alive_among(candidates, text.push(character)) == narrow(
            alive_among(candidates, text),
            character,
        ),
    decreases candidates.len(),
{
    if candidates.len() > 0 {
        lemma_alive_among_step(candidates.drop_last(), text, character);
        let before = alive_among(candidates.drop_last(), text);
        assert(text.push(character).drop_last() =~= text);
        match candidates.last().run(text) {
            Some(state) => {
                assert(before.push(state).drop_last() =~= before);
            },
            None => {},
        }
    }
}

/// Reading one more character narrows the registered matchers alive so far to
/// those that accept it.
pub proof fn lemma_alive_step(text: Seq<char>, character: char)
    ensures
        alive(text.push(character)) == narrow(alive(text), character),
{
    lemma_alive_among_step(registry(), text, character);
}

/// A text that no matcher accepts has no viable extension: once every matcher
/// has rejected, none comes back.
pub proof fn lemma_dead_end(input: Seq<char>, start: int, length: int, longer: int)
    requires
        0 <= start,
        0 <= length <= longer,
        start + longer <= input.len(),
        !viable(input.subrange(start, start + length)),
    ensures
        !viable(input.subrange(start, start + longer)),
    decreases longer - length,
{
    if length < longer {
        let text = input.subrange(start, start + length);
        let character = input[start + length];
        assert(input.subrange(start, start + length + 1) =~= text.push(character));
        lemma_alive_step(text, character);
        lemma_dead_end(input, start, length + 1, longer);
    }
}

/// What [`munch`] finds is the longest viable text: the text of that length is
/// viable if the text of length `length` is, and no longer one is.
pub proof fn lemma_extend_is_longest(input: Seq<char>, start: int, length: int)
    requires
        0 <= start,
        0 <= length,
        start + length <= input.len(),
        viable(input.subrange(start, start + length)),
    ensures
        length <= extend(input, start, length),
        start + extend(input, start, length) <= input.len(),
        viable(input.subrange(start, start + extend(input, start, length))),
        forall|longer: int|
            extend(input, start, length) < longer && start + longer <= input.len() ==> !viable(
                #[trigger] input.subrange(start, start + longer),
            ),
    decreases input.len() - start - length,
{
    if start + length < input.len() && viable(input.subrange(start, start + length + 1)) {
        lemma_extend_is_longest(input, start, length + 1);
    } else {
        assert forall|longer: int| length < longer && start + longer <= input.len() implies !viable(
            #[trigger] input.subrange(start, start + longer),
        ) by {
            lemma_dead_end(input, start, length + 1, longer);
        }
    }
}

/// The first matcher that can complete is one that can complete.
pub proof fn lemma_first_complete_finishes(states: Seq<Candidate>, text: Seq<char>)
    ensures
        first_complete(states, text) matches Some(state) ==> state.finish(text) is Some,
    decreases states.len(),
{
    if states.len() > 0 && !(states.first().finish(text) is Some) {
        lemma_first_complete_finishes(states.drop_first(), text);
    }
}

/// The matchers that survive `character`, with their new states.
pub fn narrow_candidates(candidates: &Vec<Candidate>, character: char) -> (next: Vec<Candidate>)
    ensures
        next@ == narrow(candidates@, character),
{
    let mut next: Vec<Candidate> = Vec::new();
    let mut index: usize = 0;
    while index < candidates.len()
        invariant
            index <= candidates.len(),
            next@ == narrow(candidates@.take(index as int), character),
        decreases candidates.len() - index,
    {
        proof {
            assert(candidates@.take(index + 1).drop_last() =~= candidates@.take(index as int));
        }
        match candidates[index].accept(character) {
            Some(state) => {
                next.push(state);
            },
            None => {},
        }
        index = index + 1;
    }
    proof {
        assert(candidates@.take(index as int) =~= candidates@);
    }
    next
}

/// Follows the matchers from `start` on for as long as one of them accepts.
/// Gives the end of the longest viable text and the matchers alive on it.
pub fn munch_from(input: &Vec<char>, start: usize) -> (reached: (usize, Vec<Candidate>))
    requires
        start <= input.len(),
    ensures
        reached.0 == start + munch(input@, start as int),
        start <= reached.0 <= input.len(),
        reached.1@ == alive(input@.subrange(start as int, reached.0 as int)),
{
    let mut candidates = initial_candidates();
    let mut end: usize = start;
    let mut stopped = false;
    proof {
        assert(input@.subrange(start as int, start as int) =~= Seq::<char>::empty());
        lemma_alive_nothing_read(registry());
    }
    while !stopped && end < input.len()
        invariant
            start <= end <= input.len(),
            candidates@ == alive(input@.subrange(start as int, end as int)),
            candidates@.len() > 0,
            extend(input@, start as int, end - start) == munch(input@, start as int),
            stopped ==> end < input.len() && !viable(input@.subrange(start as int, end + 1)),
        decreases
                input.len() - end,
                if stopped {
                    0int
                } else {
                    1int
                },
    {
        let next = narrow_candidates(&candidates, input[end]);
        proof {
            let text = input@.subrange(start as int, end as int);
            assert(input@.subrange(start as int, end + 1) =~= text.push(input@[end as int]));
            lemma_alive_step(text, input@[end as int]);
        }
        if next.len() == 0 {
            stopped = true;
        } else {
            candidates = next;
            end = end + 1;
        }
    }
    (end, candidates)
}

/// The first of `candidates` that can complete on a text of `length`
/// characters.
pub fn first_able(candidates: &Vec<Candidate>, length: usize) -> (found: Option<Candidate>)
    ensures
        forall|text: Seq<char>|
            text.len() == length ==> found == #[trigger] first_complete(candidates@, text),
{
    let mut index: usize = 0;
    proof {
        assert(candidates@.skip(0) =~= candidates@);
    }
    while index < candidates.len()
        invariant
            index <= candidates.len(),
            forall|text: Seq<char>|
                text.len() == length ==> #[trigger] first_complete(candidates@, text)
                    == first_complete(candidates@.skip(index as int), text),
        decreases candidates.len() - index,
    {
        let candidate = candidates[index];
        proof {
            let remaining = candidates@.skip(index as int);
            assert(remaining.first() == candidate);
            assert(remaining.drop_first() =~= candidates@.skip(index + 1));
        }
        if candidate.can_complete(length) {
            return Some(candidate);
        }
        index = index + 1;
    }
    None
}

/// The token of the first of `candidates` that can complete on the text
/// `input[start..end]`. The matchers are asked in order, and none after the
/// first that completes.
pub fn complete_first(candidates: &Vec<Candidate>, input: &Vec<char>, start: usize, end: usize) -> (token:
    Option<Token>)
    requires
        start <= end <= input.len(),
        first_complete(candidates@, input@.subrange(start as int, end as int)) matches Some(state)
            ==> state.reads_number(input@.subrange(start as int, end as int)),
    ensures
        token.deep_view() == match first_complete(
            candidates@,
            input@.subrange(start as int, end as int),
        ) {
            Some(state) => state.finish(input@.subrange(start as int, end as int)),
            None => None,
        },
{
    let ghost text = input@.subrange(start as int, end as int);
    let mut index: usize = 0;
    proof {
        assert(candidates@.skip(0) =~= candidates@);
    }
    while index < candidates.len()
        invariant
            index <= candidates.len(),
            start <= end <= input.len(),
            text == input@.subrange(start as int, end as int),
            first_complete(candidates@, text) == first_complete(
                candidates@.skip(index as int),
                text,
            ),
            first_complete(candidates@, text) matches Some(state) ==> state.reads_number(text),
        decreases candidates.len() - index,
    {
        proof {
            let remaining = candidates@.skip(index as int);
            assert(remaining.first() == candidates@[index as int]);
            assert(remaining.drop_first() =~= candidates@.skip(index + 1));
        }
        match candidates[index].complete(input, start, end) {
            Some(token) => {
                return Some(token);
            },
            None => {},
        }
        index = index + 1;
    }
    None
}

} // verus!
