//! What holds of every tokenization: the tokens cover the input, and each is
//! the longest that could be read where it stands.

use crate::chars::is_whitespace;
use crate::lexer::{
    lemma_scan_bounds, lemma_scans_unfold, lemma_skip_whitespace, lemma_viable_nothing_read, scan,
    scans_from, skip_whitespace, token_stream, Scan,
};
use crate::matcher::Candidate;
use crate::munch::{
    alive, lemma_extend_is_longest, lemma_first_complete_finishes, munch, recognize, viable,
    winner,
};
use vstd::prelude::*;

verus! {

impl Scan {
    /// Where the text found begins.
    pub open spec fn start(self) -> int {
        match self {
            Scan::Lexeme { start, .. } => start,
            Scan::Invalid { start, .. } => start,
        }
    }

    /// Where the text found ends.
    pub open spec fn end(self) -> int {
        match self {
            Scan::Lexeme { end, .. } => end,
            Scan::Invalid { end, .. } => end,
        }
    }
}

/// The lexemes of `input`, in order, with an invalid text last if there is
/// one.
pub open spec fn scans(input: Seq<char>) -> Seq<Scan> {
    scans_from(input, 0)
}

/// Whether `input` is tokenized to its end, with no error token.
pub open spec fn tokenizes_cleanly(input: Seq<char>) -> bool {
    forall|i: int| 0 <= i < scans(input).len() ==> #[trigger] scans(input)[i] is Lexeme
}

/// The position from which the tokenizer reads for its `i`-th token: the start
/// of the input for the first, and the end of the lexeme before for the
/// others. With `i` the number of tokens, this is where the last lexeme ends.
pub open spec fn resumes_at(input: Seq<char>, i: int) -> int {
    if i <= 0 {
        0
    } else {
        scans(input)[i - 1].end()
    }
}

/// The text between the lexeme before the `i`-th and the `i`-th itself. With
/// `i` the number of lexemes, this is the text after the last one.
pub open spec fn gap(input: Seq<char>, i: int) -> Seq<char> {
    if i < scans(input).len() {
        input.subrange(resumes_at(input, i), scans(input)[i].start())
    } else {
        input.subrange(resumes_at(input, i), input.len() as int)
    }
}

/// The text that the `i`-th token was made of.
pub open spec fn matched_text(input: Seq<char>, i: int) -> Seq<char> {
    input.subrange(scans(input)[i].start(), scans(input)[i].end())
}

/// The first `count` lexemes of `input`, each behind the gap that leads to it,
/// one after the other.
pub open spec fn woven(input: Seq<char>, count: int) -> Seq<char>
    decreases count,
{
    if count <= 0 {
        Seq::empty()
    } else {
        woven(input, count - 1) + gap(input, count - 1) + matched_text(input, count - 1)
    }
}

/// Every scan but the last reads from where the one before ended, and only
/// the last can be invalid.
pub proof fn lemma_scans_chain(input: Seq<char>, position: int, i: int)
    requires
        0 <= position <= input.len(),
        0 <= i < scans_from(input, position).len(),
    ensures
        i > 0 ==> scans_from(input, position)[i - 1] is Lexeme,
        ({
            let from = if i == 0 {
                position
            } else {
                scans_from(input, position)[i - 1].end()
            };
            &&& position <= from <= input.len()
            &&& scan(input, from) == Some(scans_from(input, position)[i])
            &&& scans_from(input, from) == scans_from(input, position).skip(i)
        }),
    decreases i,
{
    lemma_scans_unfold(input, position);
    lemma_scan_bounds(input, position);
    let all = scans_from(input, position);
    if i == 0 {
        assert(all.skip(0) =~= all);
    } else {
        match scan(input, position) {
            Some(Scan::Lexeme { start, end }) => {
                let rest = scans_from(input, end);
                assert(all == seq![Scan::Lexeme { start, end }] + rest);
                assert(all[i] == rest[i - 1]);
                lemma_scans_chain(input, end, i - 1);
                if i - 1 > 0 {
                    assert(all[i - 1] == rest[i - 2]);
                }
                assert(rest.skip(i - 1) =~= all.skip(i));
            },
            _ => {},
        }
    }
}

/// After the last lexeme of an input that tokenizes cleanly, only whitespace
/// is left.
pub proof fn lemma_scans_end(input: Seq<char>, position: int)
    requires
        0 <= position <= input.len(),
        forall|i: int|
            0 <= i < scans_from(input, position).len() ==> #[trigger] scans_from(
                input,
                position,
            )[i] is Lexeme,
    ensures
        ({
            let count = scans_from(input, position).len() as int;
            let from = if count == 0 {
                position
            } else {
                scans_from(input, position)[count - 1].end()
            };
            &&& position <= from <= input.len()
            &&& scan(input, from) is None
        }),
    decreases input.len() - position,
{
    lemma_scans_unfold(input, position);
    lemma_scan_bounds(input, position);
    let all = scans_from(input, position);
    match scan(input, position) {
        None => {},
        Some(Scan::Invalid { start, end }) => {
            assert(all[0] is Lexeme);
        },
        Some(Scan::Lexeme { start, end }) => {
            let rest = scans_from(input, end);
            assert(all == seq![Scan::Lexeme { start, end }] + rest);
            assert forall|i: int| 0 <= i < rest.len() implies #[trigger] rest[i] is Lexeme by {
                assert(all[i + 1] == rest[i]);
            }
            lemma_scans_end(input, end);
            if rest.len() > 0 {
                assert(all[all.len() - 1] == rest[rest.len() - 1]);
            }
        },
    }
}

/// The lexemes stand in the input in order, each within the input and none
/// empty.
pub proof fn lemma_lexemes_in_order(input: Seq<char>, i: int)
    requires
        0 <= i < scans(input).len(),
    ensures
        0 <= resumes_at(input, i) <= scans(input)[i].start() <= scans(input)[i].end()
            <= input.len(),
        scans(input)[i] is Lexeme ==> scans(input)[i].start() < scans(input)[i].end(),
        scans(input)[i].start() == skip_whitespace(input, resumes_at(input, i)),
        scans(input)[i].end() == scans(input)[i].start() + munch(input, scans(input)[i].start()),
        scan(input, resumes_at(input, i)) == Some(scans(input)[i]),
{
    lemma_scans_chain(input, 0, i);
    lemma_scan_bounds(input, resumes_at(input, i));
}

/// The tokens cover the input: the matched texts of the tokens, in order and
/// each behind the gap that leads to it, followed by what is left after the
/// last, are the input again, character for character; and the gaps hold
/// nothing but whitespace. This holds of every input that is tokenized to its
/// end; after an error token the rest of the input is not read.
pub proof fn lemma_tokens_cover_input(input: Seq<char>)
    requires
        tokenizes_cleanly(input),
    ensures
        woven(input, scans(input).len() as int) + gap(input, scans(input).len() as int) == input,
        forall|i: int, j: int|
            0 <= i <= scans(input).len() && 0 <= j < gap(input, i).len() ==> is_whitespace(
                #[trigger] gap(input, i)[j],
            ),
        token_stream(input).len() == scans(input).len(),
        forall|i: int|
            0 <= i < scans(input).len() ==> recognize(matched_text(input, i)) == Some(
                #[trigger] token_stream(input)[i],
            ),
{
    let count = scans(input).len() as int;
    lemma_woven_prefix(input, count);
    lemma_scans_end(input, 0);
    let from = resumes_at(input, count);
    lemma_skip_whitespace(input, from);
    assert(input.subrange(0, from) + input.subrange(from, input.len() as int) =~= input);
    assert forall|i: int, j: int|
        0 <= i <= scans(input).len() && 0 <= j < gap(input, i).len() implies is_whitespace(
        #[trigger] gap(input, i)[j],
    ) by {
        if i < count {
            lemma_lexemes_in_order(input, i);
            lemma_skip_whitespace(input, resumes_at(input, i));
            assert(gap(input, i)[j] == input[resumes_at(input, i) + j]);
        } else {
            assert(gap(input, i)[j] == input[from + j]);
        }
    }
    assert forall|i: int| 0 <= i < scans(input).len() implies recognize(matched_text(input, i))
        == Some(#[trigger] token_stream(input)[i]) by {
        lemma_lexemes_in_order(input, i);
        assert(scans(input)[i] is Lexeme);
    }
}

/// The first `count` lexemes with their gaps make up the input as far as the
/// last of them reaches.
pub proof fn lemma_woven_prefix(input: Seq<char>, count: int)
    requires
        0 <= count <= scans(input).len(),
    ensures
        0 <= resumes_at(input, count) <= input.len(),
        woven(input, count) == input.subrange(0, resumes_at(input, count)),
    decreases count,
{
    if count > 0 {
        lemma_woven_prefix(input, count - 1);
        lemma_lexemes_in_order(input, count - 1);
        let from = resumes_at(input, count - 1);
        let found = scans(input)[count - 1];
        assert(input.subrange(0, from) + input.subrange(from, found.start()) + input.subrange(
            found.start(),
            found.end(),
        ) =~= input.subrange(0, found.end()));
    } else {
        assert(woven(input, count) =~= input.subrange(0, 0));
    }
}

/// No matcher makes an error token.
pub proof fn lemma_matchers_make_no_error(state: Candidate, text: Seq<char>)
    ensures
        state.finish(text) matches Some(token) ==> !(token is Error),
{
}

/// The error token ends the sequence: if there is one among the tokens of an
/// input, it is the last of them, whatever is left of the input behind it.
pub proof fn lemma_error_token_is_last(input: Seq<char>, i: int)
    requires
        0 <= i < token_stream(input).len(),
        token_stream(input)[i] is Error,
    ensures
        i == token_stream(input).len() - 1,
        scans(input)[i] is Invalid,
{
    let found = scans(input)[i];
    if found is Lexeme {
        lemma_lexemes_in_order(input, i);
        let text = input.subrange(found.start(), found.end());
        lemma_first_complete_finishes(alive(text), text);
        lemma_matchers_make_no_error(winner(text).unwrap(), text);
    }
    if i + 1 < scans(input).len() {
        lemma_scans_chain(input, 0, i + 1);
    }
}

/// Maximal munch: no token is a strict prefix of a longer token at the same
/// place. Where the `i`-th token was read, no longer text of the input is a
/// token, and none is even the beginning of one.
pub proof fn lemma_maximal_munch(input: Seq<char>, i: int, longer: int)
    requires
        0 <= i < scans(input).len(),
        scans(input)[i].end() - scans(input)[i].start() < longer,
        scans(input)[i].start() + longer <= input.len(),
    ensures
        !viable(input.subrange(scans(input)[i].start(), scans(input)[i].start() + longer)),
        recognize(input.subrange(scans(input)[i].start(), scans(input)[i].start() + longer))
            is None,
{
    lemma_lexemes_in_order(input, i);
    let start = scans(input)[i].start();
    lemma_viable_nothing_read(input, start);
    lemma_extend_is_longest(input, start, 0);
    let text = input.subrange(start, start + longer);
    assert(!viable(text));
    assert(alive(text) =~= Seq::empty());
}

} // verus!
