//! What each matcher accepts, said of the text as a whole.
//!
//! The matchers are defined by what they do with one character. These lemmas
//! say which texts that leaves alive, and in which state.

use crate::chars::{is_alphabetic, is_alphanumeric, is_numeric};
use crate::matcher::{
    Candidate, FloatParser, IdentifierParser, IntegerParser, MacroCallParser, StringParser,
};
use vstd::prelude::*;

verus! {

/// Alphanumeric or `_`.
pub open spec fn is_word_character(c: char) -> bool {
    is_alphanumeric(c) || c == '_'
}

/// Every character of `text` is alphanumeric or `_`.
pub open spec fn is_word(text: Seq<char>) -> bool {
    forall|i: int| 0 <= i < text.len() ==> is_word_character(#[trigger] text[i])
}

/// An identifier: a first character that is alphabetic or `_`, then
/// characters that are alphanumeric or `_`.
pub open spec fn is_identifier(text: Seq<char>) -> bool {
    &&& text.len() > 0
    &&& is_alphabetic(text[0]) || text[0] == '_'
    &&& is_word(text)
}

/// A macro call: a word, which may be empty, and a `!` behind it. A `!` that
/// counts as a word character closes nothing.
pub open spec fn is_macro_call(text: Seq<char>) -> bool {
    &&& text.len() > 0
    &&& text.last() == '!'
    &&& !is_word_character('!')
    &&& is_word(text.drop_last())
}

/// Every character of `text` is numeric.
pub open spec fn is_numeric_run(text: Seq<char>) -> bool {
    forall|i: int| 0 <= i < text.len() ==> is_numeric(#[trigger] text[i])
}

/// A decimal point that is not itself numeric.
pub open spec fn is_point(c: char) -> bool {
    c == '.' && !is_numeric(c)
}

/// Numeric characters and at most one decimal point.
pub open spec fn is_float_beginning(text: Seq<char>) -> bool {
    &&& forall|i: int| 0 <= i < text.len() ==> is_numeric(#[trigger] text[i]) || text[i] == '.'
    &&& forall|i: int, j: int|
        0 <= i < j < text.len() ==> !(is_point(#[trigger] text[i]) && is_point(#[trigger] text[j]))
}

/// Whether `text` holds a decimal point.
pub open spec fn has_point(text: Seq<char>) -> bool {
    exists|i: int| 0 <= i < text.len() && is_point(#[trigger] text[i])
}

/// Whether `text` holds a numeric character.
pub open spec fn has_numeric(text: Seq<char>) -> bool {
    exists|i: int| 0 <= i < text.len() && is_numeric(#[trigger] text[i])
}

/// Whether the character at `i` is escaped: a backslash that is not itself
/// escaped stands right before it.
pub open spec fn is_escaped(text: Seq<char>, i: int) -> bool
    decreases i,
{
    0 < i <= text.len() && text[i - 1] == '\\' && !is_escaped(text, i - 1)
}

/// Whether a `"` that is not escaped stands at `i`.
pub open spec fn closes_at(text: Seq<char>, i: int) -> bool {
    0 < i < text.len() && text[i] == '"' && !is_escaped(text, i)
}

/// The beginning of a string literal: an opening `"`, and no closing `"`
/// before the last character.
pub open spec fn is_string_beginning(text: Seq<char>) -> bool {
    &&& text.len() > 0
    &&& text[0] == '"'
    &&& forall|i: int| 0 < i < text.len() - 1 ==> !#[trigger] closes_at(text, i)
}

/// The identifier matcher accepts the identifiers, and nothing else but the
/// empty text.
pub proof fn lemma_identifier_language(text: Seq<char>)
    ensures
        Candidate::Identifier(IdentifierParser { started: false }).run(text) == if text.len()
            == 0 {
            Some(Candidate::Identifier(IdentifierParser { started: false }))
        } else if is_identifier(text) {
            Some(Candidate::Identifier(IdentifierParser { started: true }))
        } else {
            None
        },
    decreases text.len(),
{
    if text.len() > 0 {
        let shorter = text.drop_last();
        lemma_identifier_language(shorter);
        if shorter.len() > 0 {
            assert(shorter[0] == text[0]);
            if is_identifier(shorter) && is_word_character(text.last()) {
                assert forall|i: int| 0 <= i < text.len() implies is_word_character(
                    #[trigger] text[i],
                ) by {
                    if i < shorter.len() {
                        assert(shorter[i] == text[i]);
                    }
                }
            }
            if is_identifier(text) {
                assert forall|i: int| 0 <= i < shorter.len() implies is_word_character(
                    #[trigger] shorter[i],
                ) by {
                    assert(shorter[i] == text[i]);
                }
                assert(is_word_character(text[text.len() - 1]));
            }
        }
    }
}

/// The macro call matcher accepts the words, which it cannot complete on, and
/// the macro calls, on which it can.
pub proof fn lemma_macro_call_language(text: Seq<char>)
    ensures
        Candidate::MacroCall(MacroCallParser { found_bang: false }).run(text) == if is_word(text) {
            Some(Candidate::MacroCall(MacroCallParser { found_bang: false }))
        } else if is_macro_call(text) {
            Some(Candidate::MacroCall(MacroCallParser { found_bang: true }))
        } else {
            None
        },
    decreases text.len(),
{
    if text.len() > 0 {
        let shorter = text.drop_last();
        lemma_macro_call_language(shorter);
        if is_word(shorter) && is_word_character(text.last()) {
            assert forall|i: int| 0 <= i < text.len() implies is_word_character(
                #[trigger] text[i],
            ) by {
                if i < shorter.len() {
                    assert(shorter[i] == text[i]);
                }
            }
        }
        if is_word(text) {
            assert forall|i: int| 0 <= i < shorter.len() implies is_word_character(
                #[trigger] shorter[i],
            ) by {
                assert(shorter[i] == text[i]);
            }
            assert(is_word_character(text[text.len() - 1]));
        }
        if !is_word(shorter) && is_macro_call(shorter) {
            assert(shorter[shorter.len() - 1] == text[shorter.len() - 1]);
            assert(!is_word(text));
            if is_macro_call(text) {
                assert(is_word_character(shorter[shorter.len() - 1]));
            }
        }
    }
}

/// The integer matcher accepts the runs of numeric characters.
pub proof fn lemma_integer_language(text: Seq<char>)
    ensures
        Candidate::Integer(IntegerParser {  }).run(text) == if is_numeric_run(text) {
            Some(Candidate::Integer(IntegerParser {  }))
        } else {
            None
        },
    decreases text.len(),
{
    if text.len() > 0 {
        let shorter = text.drop_last();
        lemma_integer_language(shorter);
        if is_numeric_run(shorter) && is_numeric(text.last()) {
            assert forall|i: int| 0 <= i < text.len() implies is_numeric(#[trigger] text[i]) by {
                if i < shorter.len() {
                    assert(shorter[i] == text[i]);
                }
            }
        }
        if is_numeric_run(text) {
            assert forall|i: int| 0 <= i < shorter.len() implies is_numeric(
                #[trigger] shorter[i],
            ) by {
                assert(shorter[i] == text[i]);
            }
            assert(is_numeric(text[text.len() - 1]));
        }
    }
}

/// The float matcher accepts numeric characters with at most one decimal
/// point among them, and knows whether it has seen the point and a numeric
/// character.
pub proof fn lemma_float_language(text: Seq<char>)
    ensures
        Candidate::Float(FloatParser { found_dot: false, found_digit: false }).run(text)
            == if is_float_beginning(text) {
            Some(
                Candidate::Float(
                    FloatParser { found_dot: has_point(text), found_digit: has_numeric(text) },
                ),
            )
        } else {
            None
        },
    decreases text.len(),
{
    if text.len() > 0 {
        let shorter = text.drop_last();
        let last = text.last();
        lemma_float_language(shorter);
        assert forall|i: int| 0 <= i < shorter.len() implies shorter[i] == text[i] by {}
        if is_float_beginning(text) {
            assert(is_float_beginning(shorter)) by {
                assert forall|i: int| 0 <= i < shorter.len() implies is_numeric(
                    #[trigger] shorter[i],
                ) || shorter[i] == '.' by {
                    assert(shorter[i] == text[i]);
                }
                assert forall|i: int, j: int| 0 <= i < j < shorter.len() implies !(is_point(
                    #[trigger] shorter[i],
                ) && is_point(#[trigger] shorter[j])) by {
                    assert(shorter[i] == text[i]);
                    assert(shorter[j] == text[j]);
                }
            }
            assert(is_numeric(text[text.len() - 1]) || text[text.len() - 1] == '.');
            if has_point(shorter) {
                let i = choose|i: int| 0 <= i < shorter.len() && is_point(#[trigger] shorter[i]);
                assert(is_point(text[i]));
                assert(!(is_point(text[i]) && is_point(text[text.len() - 1])));
            }
        }
        if is_float_beginning(shorter) {
            let found_dot = has_point(shorter);
            let found_digit = has_numeric(shorter);
            if is_numeric(last) {
                assert(is_numeric(text[text.len() - 1]));
                assert(has_numeric(text));
                assert(has_point(text) == found_dot) by {
                    if found_dot {
                        let i = choose|i: int|
                            0 <= i < shorter.len() && is_point(#[trigger] shorter[i]);
                        assert(is_point(text[i]));
                    }
                    if has_point(text) {
                        let i = choose|i: int| 0 <= i < text.len() && is_point(#[trigger] text[i]);
                        assert(is_point(shorter[i]));
                    }
                }
                assert(is_float_beginning(text)) by {
                    assert forall|i: int| 0 <= i < text.len() implies is_numeric(
                        #[trigger] text[i],
                    ) || text[i] == '.' by {
                        if i < shorter.len() {
                            assert(shorter[i] == text[i]);
                        }
                    }
                    assert forall|i: int, j: int| 0 <= i < j < text.len() implies !(is_point(
                        #[trigger] text[i],
                    ) && is_point(#[trigger] text[j])) by {
                        if j < shorter.len() {
                            assert(shorter[i] == text[i]);
                            assert(shorter[j] == text[j]);
                        }
                    }
                }
            } else if last == '.' && !found_dot {
                assert(is_point(text[text.len() - 1]));
                assert(has_point(text));
                assert(has_numeric(text) == found_digit) by {
                    if found_digit {
                        let i = choose|i: int|
                            0 <= i < shorter.len() && is_numeric(#[trigger] shorter[i]);
                        assert(is_numeric(text[i]));
                    }
                    if has_numeric(text) {
                        let i = choose|i: int|
                            0 <= i < text.len() && is_numeric(#[trigger] text[i]);
                        assert(is_numeric(shorter[i]));
                    }
                }
                assert(is_float_beginning(text)) by {
                    assert forall|i: int| 0 <= i < text.len() implies is_numeric(
                        #[trigger] text[i],
                    ) || text[i] == '.' by {
                        if i < shorter.len() {
                            assert(shorter[i] == text[i]);
                        }
                    }
                    assert forall|i: int, j: int| 0 <= i < j < text.len() implies !(is_point(
                        #[trigger] text[i],
                    ) && is_point(#[trigger] text[j])) by {
                        assert(shorter[i] == text[i]);
                        if is_point(text[i]) {
                            assert(is_point(shorter[i]));
                        }
                    }
                }
            } else {
                if is_float_beginning(text) {
                    assert(last == '.');
                    let i = choose|i: int| 0 <= i < shorter.len() && is_point(#[trigger] shorter[i]);
                    assert(is_point(text[i]));
                    assert(is_point(text[text.len() - 1]));
                }
            }
        }
    } else {
        assert(!has_point(text));
        assert(!has_numeric(text));
    }
}

/// Whether a character is escaped depends only on what stands before it.
pub proof fn lemma_escaped_prefix(text: Seq<char>, shorter: Seq<char>, i: int)
    requires
        shorter.len() <= text.len(),
        forall|k: int| 0 <= k < shorter.len() ==> shorter[k] == text[k],
        0 <= i <= shorter.len(),
    ensures
        is_escaped(shorter, i) == is_escaped(text, i),
    decreases i,
{
    if i > 0 {
        lemma_escaped_prefix(text, shorter, i - 1);
    }
}

/// The string matcher accepts the beginnings of string literals, and knows
/// whether the literal is closed and whether the next character is escaped.
pub proof fn lemma_string_language(text: Seq<char>)
    ensures
        Candidate::StringLiteral(
            StringParser {
                found_initial_quote: false,
                found_terminal_quote: false,
                next_character_is_escaped: false,
            },
        ).run(text) == if text.len() == 0 {
            Some(
                Candidate::StringLiteral(
                    StringParser {
                        found_initial_quote: false,
                        found_terminal_quote: false,
                        next_character_is_escaped: false,
                    },
                ),
            )
        } else if is_string_beginning(text) {
            Some(
                Candidate::StringLiteral(
                    StringParser {
                        found_initial_quote: true,
                        found_terminal_quote: closes_at(text, text.len() - 1),
                        next_character_is_escaped: text.len() > 1 && !closes_at(
                            text,
                            text.len() - 1,
                        ) && is_escaped(text, text.len() as int),
                    },
                ),
            )
        } else {
            None
        },
    decreases text.len(),
{
    if text.len() > 0 {
        let shorter = text.drop_last();
        lemma_string_language(shorter);
        assert forall|k: int| 0 <= k < shorter.len() implies shorter[k] == text[k] by {}
        assert forall|i: int| 0 <= i <= shorter.len() implies is_escaped(shorter, i) == is_escaped(
            text,
            i,
        ) by {
            lemma_escaped_prefix(text, shorter, i);
        }
        assert forall|i: int| 0 < i < shorter.len() implies closes_at(shorter, i) == closes_at(
            text,
            i,
        ) by {
            assert(shorter[i] == text[i]);
        }
        if shorter.len() > 0 {
            let last = text.len() - 1;
            assert(is_escaped(text, text.len() as int) == (text[last] == '\\' && !is_escaped(
                text,
                last,
            )));
            if shorter.len() == 1 {
                assert(!is_escaped(text, 0));
                assert(is_escaped(text, 1) == (text[0] == '\\'));
            }
            if is_string_beginning(shorter) {
                if closes_at(shorter, shorter.len() - 1) {
                    assert(closes_at(text, text.len() - 2));
                } else {
                    assert forall|i: int| 0 < i < text.len() - 1 implies !#[trigger] closes_at(
                        text,
                        i,
                    ) by {
                        if i < shorter.len() - 1 {
                            assert(!closes_at(shorter, i));
                        }
                    }
                }
            } else if is_string_beginning(text) {
                assert(shorter[0] == text[0]);
                assert forall|i: int| 0 < i < shorter.len() - 1 implies !#[trigger] closes_at(
                    shorter,
                    i,
                ) by {
                    assert(!closes_at(text, i));
                }
            }
        } else {
            assert(!is_escaped(text, 0));
        }
    }
}

} // verus!
