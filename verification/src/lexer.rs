//! The tokenizer: from characters to a sequence of tokens, one at a time.

use crate::chars::{is_whitespace, push_char, whitespace};
use crate::matcher::{collect, registry};
use crate::munch::{
    alive, complete_first, first_able, lemma_alive_nothing_read, lemma_extend_is_longest,
    lemma_first_complete_finishes, munch, munch_from, recognize, viable, winner,
};
pub use crate::token::{Token, TokenView};
use vstd::prelude::*;

verus! {

/// The first position from `position` on that holds no whitespace, or the
/// length of the input if only whitespace is left.
pub open spec fn skip_whitespace(input: Seq<char>, position: int) -> int
    decreases input.len() - position,
{
    if 0 <= position < input.len() && is_whitespace(input[position]) {
        skip_whitespace(input, position + 1)
    } else {
        position
    }
}

/// What the tokenizer finds when it reads one token.
pub enum Scan {
    /// The text `input[start..end]` is a token.
    Lexeme { start: int, end: int },
    /// The text `input[start..end]` is the longest that any matcher accepts,
    /// and it is no token. Where `end` is `start`, no token begins with the
    /// character at `start`.
    Invalid { start: int, end: int },
}

/// Reads one token from `position` on: skips whitespace, follows the matchers
/// for as long as one of them accepts, and lets the first that can complete
/// decide. `None` means that only whitespace was left.
pub open spec fn scan(input: Seq<char>, position: int) -> Option<Scan> {
    let start = skip_whitespace(input, position);
    let end = start + munch(input, start);
    if start >= input.len() {
        None
    } else if start < end && recognize(input.subrange(start, end)) is Some {
        Some(Scan::Lexeme { start, end })
    } else {
        Some(Scan::Invalid { start, end })
    }
}

/// The message of the error token for an invalid text: the offending
/// character if nothing could be read, else the text read together with the
/// character that ended it, if there is one.
pub open spec fn invalid_message(input: Seq<char>, start: int, end: int) -> Seq<char> {
    if end == start {
        "Invalid character: "@ + input.subrange(start, start + 1)
    } else if end < input.len() {
        "Invalid token: "@ + input.subrange(start, end + 1)
    } else {
        "Invalid token: "@ + input.subrange(start, end)
    }
}

/// The token that a scan gives.
pub open spec fn token_of(input: Seq<char>, found: Scan) -> TokenView {
    match found {
        Scan::Lexeme { start, end } => recognize(input.subrange(start, end)).unwrap(),
        Scan::Invalid { start, end } => TokenView::Error(invalid_message(input, start, end)),
    }
}

/// Everything the tokenizer finds from `position` on, in order: a lexeme for
/// each token, and an invalid text last if the input cannot be tokenized to
/// its end. Nothing is read after an invalid text.
///
/// A lexeme always ends within the input and behind the position that
/// reading started from, as [`lemma_scan_bounds`] shows; the definition asks
/// again only to be seen to end.
pub open spec fn scans_from(input: Seq<char>, position: int) -> Seq<Scan>
    decreases input.len() - position,
{
    match scan(input, position) {
        None => Seq::empty(),
        Some(Scan::Invalid { start, end }) => seq![Scan::Invalid { start, end }],
        Some(Scan::Lexeme { start, end }) => {
            if position < end <= input.len() {
                seq![Scan::Lexeme { start, end }] + scans_from(input, end)
            } else {
                Seq::empty()
            }
        },
    }
}

/// The tokens of `input` from `position` on.
pub open spec fn tokens_from(input: Seq<char>, position: int) -> Seq<TokenView> {
    scans_from(input, position).map_values(|found: Scan| token_of(input, found))
}

/// The tokens of `input`: what [`tokenize`] yields, one by one.
pub open spec fn token_stream(input: Seq<char>) -> Seq<TokenView> {
    tokens_from(input, 0)
}

/// Whether the token found can be held: see [`numbers_fit`].
pub open spec fn number_fits(input: Seq<char>, found: Scan) -> bool {
    match found {
        Scan::Lexeme { start, end } => winner(input.subrange(start, end)) matches Some(state)
            ==> state.reads_number(input.subrange(start, end)),
        Scan::Invalid { .. } => true,
    }
}

/// Whether every numeric literal among the tokens of `input` from `position`
/// on can be held.
pub open spec fn numbers_fit_from(input: Seq<char>, position: int) -> bool {
    forall|i: int|
        0 <= i < scans_from(input, position).len() ==> number_fits(
            input,
            #[trigger] scans_from(input, position)[i],
        )
}

/// Whether every numeric literal among the tokens of `input` can be held:
/// each integer literal is written in ASCII digits and fits an `i128`, and
/// each float literal has only ASCII digits around its point.
///
/// The matchers admit every character that Unicode classes as numeric, and
/// digit runs of any length. A literal outside these bounds has no value that
/// a token could hold, so such input is not tokenized at all.
pub open spec fn numbers_fit(input: Seq<char>) -> bool {
    numbers_fit_from(input, 0)
}

/// Skipping whitespace moves forward, over whitespace only, and stops at the
/// end of the input or at a character that is no whitespace.
pub proof fn lemma_skip_whitespace(input: Seq<char>, position: int)
    requires
        0 <= position <= input.len(),
    ensures
        position <= skip_whitespace(input, position) <= input.len(),
        forall|i: int|
            position <= i < skip_whitespace(input, position) ==> is_whitespace(#[trigger] input[i]),
        skip_whitespace(input, position) < input.len() ==> !is_whitespace(
            input[skip_whitespace(input, position)],
        ),
    decreases input.len() - position,
{
    if position < input.len() && is_whitespace(input[position]) {
        lemma_skip_whitespace(input, position + 1);
    }
}

/// A scan stays within the input, and a lexeme is never empty.
pub proof fn lemma_scan_bounds(input: Seq<char>, position: int)
    requires
        0 <= position <= input.len(),
    ensures
        match scan(input, position) {
            None => true,
            Some(Scan::Lexeme { start, end }) => position <= start < end <= input.len(),
            Some(Scan::Invalid { start, end }) => position <= start <= end <= input.len() && start
                < input.len(),
        },
{
    lemma_skip_whitespace(input, position);
    let start = skip_whitespace(input, position);
    if start < input.len() {
        lemma_viable_nothing_read(input, start);
        lemma_extend_is_longest(input, start, 0);
    }
}

/// The empty text is viable: before the first character every matcher is
/// alive.
pub proof fn lemma_viable_nothing_read(input: Seq<char>, start: int)
    requires
        0 <= start <= input.len(),
    ensures
        viable(input.subrange(start, start)),
        alive(input.subrange(start, start)) == registry(),
{
    assert(input.subrange(start, start) =~= Seq::<char>::empty());
    lemma_alive_nothing_read(registry());
}

/// After a lexeme the tokenizer goes on from the lexeme's end.
pub proof fn lemma_scans_unfold(input: Seq<char>, position: int)
    requires
        0 <= position <= input.len(),
    ensures
        match scan(input, position) {
            None => scans_from(input, position) == Seq::<Scan>::empty() && tokens_from(
                input,
                position,
            ) == Seq::<TokenView>::empty(),
            Some(Scan::Invalid { start, end }) => scans_from(input, position) == seq![
                Scan::Invalid { start, end },
            ] && tokens_from(input, position) == seq![
                token_of(input, Scan::Invalid { start, end }),
            ],
            Some(Scan::Lexeme { start, end }) => scans_from(input, position) == seq![
                Scan::Lexeme { start, end },
            ] + scans_from(input, end) && tokens_from(input, position) == seq![
                token_of(input, Scan::Lexeme { start, end }),
            ] + tokens_from(input, end) && (numbers_fit_from(input, position) <==> number_fits(
                input,
                Scan::Lexeme { start, end },
            ) && numbers_fit_from(input, end)),
        },
{
    lemma_scan_bounds(input, position);
    match scan(input, position) {
        None => {
            assert(tokens_from(input, position) =~= Seq::<TokenView>::empty());
        },
        Some(Scan::Invalid { start, end }) => {
            assert(tokens_from(input, position) =~= seq![
                token_of(input, Scan::Invalid { start, end }),
            ]);
        },
        Some(Scan::Lexeme { start, end }) => {
            let all = scans_from(input, position);
            let rest = scans_from(input, end);
            assert(all == seq![Scan::Lexeme { start, end }] + rest);
            assert(tokens_from(input, position) =~= seq![
                token_of(input, Scan::Lexeme { start, end }),
            ] + tokens_from(input, end));
            if numbers_fit_from(input, position) {
                assert(all[0] == Scan::Lexeme { start, end });
                assert forall|i: int| 0 <= i < rest.len() implies number_fits(
                    input,
                    #[trigger] rest[i],
                ) by {
                    assert(all[i + 1] == rest[i]);
                }
            }
            if number_fits(input, Scan::Lexeme { start, end }) && numbers_fit_from(input, end) {
                assert forall|i: int| 0 <= i < all.len() implies number_fits(
                    input,
                    #[trigger] all[i],
                ) by {
                    if i > 0 {
                        assert(all[i] == rest[i - 1]);
                    }
                }
            }
        },
    }
}

/// The first position from `position` on that holds no whitespace.
fn skip_blanks(input: &Vec<char>, position: usize) -> (start: usize)
    requires
        position <= input.len(),
    ensures
        start == skip_whitespace(input@, position as int),
        position <= start <= input.len(),
{
    let mut start: usize = position;
    while start < input.len() && whitespace(input[start])
        invariant
            position <= start <= input.len(),
            skip_whitespace(input@, position as int) == skip_whitespace(input@, start as int),
        decreases input.len() - start,
    {
        start = start + 1;
    }
    start
}

/// Reads one token of `input` from `position` on. Gives the token, the
/// position at which reading goes on, and whether the token is the error
/// token.
fn read_token(input: &Vec<char>, position: usize) -> (read: (Option<Token>, usize, bool))
    requires
        position <= input.len(),
        scan(input@, position as int) matches Some(found) ==> number_fits(input@, found),
    ensures
        position <= read.1 <= input.len(),
        match scan(input@, position as int) {
            None => read.0 is None && read.1 == input.len() && !read.2,
            Some(Scan::Lexeme { start, end }) => read.0.deep_view() == Some(
                token_of(input@, Scan::Lexeme { start, end }),
            ) && read.1 == end && !read.2,
            Some(Scan::Invalid { start, end }) => read.0.deep_view() == Some(
                token_of(input@, Scan::Invalid { start, end }),
            ) && read.1 == end && read.2,
        },
{
    let start = skip_blanks(input, position);
    if start >= input.len() {
        return (None, start, false);
    }
    let (end, candidates) = munch_from(input, start);
    let ghost text = input@.subrange(start as int, end as int);
    proof {
        lemma_first_complete_finishes(alive(text), text);
    }
    if end == start {
        let mut message = "Invalid character: ".to_owned();
        push_char(&mut message, input[start]);
        proof {
            assert(input@.subrange(start as int, start + 1) =~= seq![input@[start as int]]);
            assert(message@ =~= invalid_message(input@, start as int, end as int));
        }
        return (Some(Token::Error(message)), end, true);
    }
    match complete_first(&candidates, input, start, end) {
        Some(token) => (Some(token), end, false),
        None => {
            let mut message = "Invalid token: ".to_owned();
            let shown = if end < input.len() {
                end + 1
            } else {
                end
            };
            message.append(collect(input, start, shown).as_str());
            (Some(Token::Error(message)), end, true)
        },
    }
}

/// Empties the lookahead and gives what it held.
fn take_lookahead(lookahead: &mut Option<Option<Token>>) -> (taken: Option<Option<Token>>)
    ensures
        taken == *old(lookahead),
        *final(lookahead) == None::<Option<Token>>,
    no_unwind
{
    let mut taken: Option<Option<Token>> = None;
    core::mem::swap(lookahead, &mut taken);
    taken
}

/// The tokens of a text, produced one at a time and on demand, with one token
/// of lookahead.
///
/// Once the error token has been produced the sequence is at its end,
/// whatever is left of the input.
pub struct TokenIterator {
    input: Vec<char>,
    position: usize,
    found_invalid_token: bool,
    peeked: Option<Option<Token>>,
}

impl TokenIterator {
    #[verifier::type_invariant]
    closed spec fn well_formed(&self) -> bool {
        &&& self.position <= self.input.len()
        &&& !self.found_invalid_token ==> numbers_fit_from(self.input@, self.position as int)
        &&& self.peeked == Some(None::<Token>) ==> self.unread().len() == 0
    }

    /// The tokens that have not been read from the input yet.
    closed spec fn unread(&self) -> Seq<TokenView> {
        if self.found_invalid_token {
            Seq::empty()
        } else {
            tokens_from(self.input@, self.position as int)
        }
    }

    /// The tokens still to come, in order.
    pub closed spec fn view(&self) -> Seq<TokenView> {
        match self.peeked {
            Some(Some(token)) => seq![token@] + self.unread(),
            _ => self.unread(),
        }
    }

    /// Reads the next token from the input, past the lookahead.
    fn read(&mut self) -> (token: Option<Token>)
        requires
            old(self).peeked is None,
        ensures
            final(self).peeked is None,
            token.deep_view() == if old(self).unread().len() > 0 {
                Some(old(self).unread()[0])
            } else {
                None
            },
            final(self).unread() == if old(self).unread().len() > 0 {
                old(self).unread().drop_first()
            } else {
                old(self).unread()
            },
    {
        proof {
            use_type_invariant(&*self);
        }
        if self.found_invalid_token {
            return None;
        }
        proof {
            lemma_scans_unfold(self.input@, self.position as int);
            lemma_scan_bounds(self.input@, self.position as int);
        }
        let (token, position, invalid) = read_token(&self.input, self.position);
        proof {
            if token is None {
                lemma_only_whitespace_left(self.input@, self.position as int);
            }
        }
        if invalid {
            self.found_invalid_token = true;
        } else {
            self.position = position;
        }
        token
    }

    /// Takes the next token, or `None` when the sequence is at its end.
    pub fn next(&mut self) -> (token: Option<Token>)
        ensures
            old(self)@.len() > 0 ==> token.deep_view() == Some(old(self)@[0]) && final(self)@ == old(
                self,
            )@.drop_first(),
            old(self)@.len() == 0 ==> token is None && final(self)@.len() == 0,
    {
        proof {
            use_type_invariant(&*self);
        }
        match take_lookahead(&mut self.peeked) {
            Some(token) => {
                proof {
                    if token is Some {
                        assert(old(self)@.drop_first() =~= self.unread());
                    }
                }
                token
            },
            None => self.read(),
        }
    }

    /// Shows the next token without taking it, or `None` when the sequence is
    /// at its end.
    pub fn peek(&mut self) -> (token: Option<&Token>)
        ensures
            final(self)@ == old(self)@,
            token.deep_view() == if old(self)@.len() > 0 {
                Some(old(self)@[0])
            } else {
                None
            },
    {
        proof {
            use_type_invariant(&*self);
        }
        if self.peeked.is_none() {
            let token = self.read();
            proof {
                use_type_invariant(&*self);
            }
            self.peeked = Some(token);
        }
        match &self.peeked {
            Some(Some(token)) => Some(token),
            _ => None,
        }
    }
}

/// Once only whitespace is left, it stays that way from the end of the input.
proof fn lemma_only_whitespace_left(input: Seq<char>, position: int)
    requires
        0 <= position <= input.len(),
        scan(input, position) is None,
    ensures
        scans_from(input, input.len() as int) == Seq::<Scan>::empty(),
        tokens_from(input, input.len() as int) == Seq::<TokenView>::empty(),
        numbers_fit_from(input, input.len() as int),
{
    lemma_scans_unfold(input, input.len() as int);
}

/// Tests whether every numeric literal among the tokens of `input` can be
/// held, which is what [`tokenize`] asks of its input.
pub fn do_numbers_fit(input: &Vec<char>) -> (fit: bool)
    ensures
        fit == numbers_fit(input@),
{
    let mut position: usize = 0;
    loop
        invariant
            position <= input.len(),
            numbers_fit(input@) == numbers_fit_from(input@, position as int),
        decreases input.len() - position,
    {
        proof {
            lemma_scans_unfold(input@, position as int);
            lemma_scan_bounds(input@, position as int);
        }
        let start = skip_blanks(input, position);
        if start >= input.len() {
            return true;
        }
        let (end, candidates) = munch_from(input, start);
        let ghost text = input@.subrange(start as int, end as int);
        proof {
            lemma_first_complete_finishes(alive(text), text);
        }
        match first_able(&candidates, end - start) {
            Some(state) => {
                if end == start {
                    return true;
                }
                if !state.fits(input, start, end) {
                    return false;
                }
                position = end;
            },
            None => {
                return true;
            },
        }
    }
}

/// Starts tokenizing `input`, if every numeric literal among its tokens can
/// be held; `None` if one cannot.
pub fn try_tokenize(input: Vec<char>) -> (tokens: Option<TokenIterator>)
    ensures
        match tokens {
            Some(tokens) => numbers_fit(input@) && tokens@ == token_stream(input@),
            None => !numbers_fit(input@),
        },
{
    if do_numbers_fit(&input) {
        Some(tokenize(input))
    } else {
        None
    }
}

/// Starts tokenizing `input`. Nothing is read until the first token is asked
/// for.
pub fn tokenize(input: Vec<char>) -> (tokens: TokenIterator)
    requires
        numbers_fit(input@),
    ensures
        tokens@ == token_stream(input@),
{
    TokenIterator { input, position: 0, found_invalid_token: false, peeked: None }
}

} // verus!
