//! The matchers of the tokenizer: one small automaton for each lexical
//! category, and the fixed order in which they are consulted.
//!
//! A matcher reads a token one character at a time. After each character it
//! is either still alive, in a new state, or it has rejected the text for
//! good. A matcher that is alive when the text ends may or may not be able to
//! complete, that is, to turn the text it has read into a token.

use crate::chars::{
    alphabetic, alphanumeric, ascii_digit, decimal_value, denotes_i128, is_alphabetic,
    is_alphanumeric, is_ascii_digit, is_numeric, numeric, push_char, read_decimal,
};
use crate::token::{Token, TokenView};
use vstd::prelude::*;

verus! {

/// The tokens that stand for one fixed text: the punctuation and operator
/// marks, the keywords, and the names of the primitive types.
#[derive(Clone, Copy, Debug, PartialEq, Eq, Structural)]
pub enum ExactToken {
    LeftParen,
    RightParen,
    LeftBrace,
    RightBrace,
    LeftBracket,
    RightBracket,
    Comma,
    Dot,
    Colon,
    Semicolon,
    Plus,
    Minus,
    Star,
    Slash,
    Percent,
    Arrow,
    Equals,
    Function,
    Let,
    Mut,
    If,
    Else,
    I8,
    I16,
    I32,
    I64,
    Iptr,
    U8,
    U16,
    U32,
    U64,
    Uptr,
    F32,
    F64,
    Bool,
    CharType,
    StringType,
}

impl ExactToken {
    /// The text that the token stands for.
    pub open spec fn text(self) -> Seq<char> {
        match self {
            ExactToken::LeftParen => "("@,
            ExactToken::RightParen => ")"@,
            ExactToken::LeftBrace => "{"@,
            ExactToken::RightBrace => "}"@,
            ExactToken::LeftBracket => "["@,
            ExactToken::RightBracket => "]"@,
            ExactToken::Comma => ","@,
            ExactToken::Dot => "."@,
            ExactToken::Colon => ":"@,
            ExactToken::Semicolon => ";"@,
            ExactToken::Plus => "+"@,
            ExactToken::Minus => "-"@,
            ExactToken::Star => "*"@,
            ExactToken::Slash => "/"@,
            ExactToken::Percent => "%"@,
            ExactToken::Arrow => "->"@,
            ExactToken::Equals => "="@,
            ExactToken::Function => "function"@,
            ExactToken::Let => "let"@,
            ExactToken::Mut => "mut"@,
            ExactToken::If => "if"@,
            ExactToken::Else => "else"@,
            ExactToken::I8 => "i8"@,
            ExactToken::I16 => "i16"@,
            ExactToken::I32 => "i32"@,
            ExactToken::I64 => "i64"@,
            ExactToken::Iptr => "iptr"@,
            ExactToken::U8 => "u8"@,
            ExactToken::U16 => "u16"@,
            ExactToken::U32 => "u32"@,
            ExactToken::U64 => "u64"@,
            ExactToken::Uptr => "uptr"@,
            ExactToken::F32 => "f32"@,
            ExactToken::F64 => "f64"@,
            ExactToken::Bool => "bool"@,
            ExactToken::CharType => "char"@,
            ExactToken::StringType => "string"@,
        }
    }

    /// The token itself.
    pub open spec fn token(self) -> TokenView {
        match self {
            ExactToken::LeftParen => TokenView::LeftParen,
            ExactToken::RightParen => TokenView::RightParen,
            ExactToken::LeftBrace => TokenView::LeftBrace,
            ExactToken::RightBrace => TokenView::RightBrace,
            ExactToken::LeftBracket => TokenView::LeftBracket,
            ExactToken::RightBracket => TokenView::RightBracket,
            ExactToken::Comma => TokenView::Comma,
            ExactToken::Dot => TokenView::Dot,
            ExactToken::Colon => TokenView::Colon,
            ExactToken::Semicolon => TokenView::Semicolon,
            ExactToken::Plus => TokenView::Plus,
            ExactToken::Minus => TokenView::Minus,
            ExactToken::Star => TokenView::Star,
            ExactToken::Slash => TokenView::Slash,
            ExactToken::Percent => TokenView::Percent,
            ExactToken::Arrow => TokenView::Arrow,
            ExactToken::Equals => TokenView::Equals,
            ExactToken::Function => TokenView::Function,
            ExactToken::Let => TokenView::Let,
            ExactToken::Mut => TokenView::Mut,
            ExactToken::If => TokenView::If,
            ExactToken::Else => TokenView::Else,
            ExactToken::I8 => TokenView::I8,
            ExactToken::I16 => TokenView::I16,
            ExactToken::I32 => TokenView::I32,
            ExactToken::I64 => TokenView::I64,
            ExactToken::Iptr => TokenView::Iptr,
            ExactToken::U8 => TokenView::U8,
            ExactToken::U16 => TokenView::U16,
            ExactToken::U32 => TokenView::U32,
            ExactToken::U64 => TokenView::U64,
            ExactToken::Uptr => TokenView::Uptr,
            ExactToken::F32 => TokenView::F32,
            ExactToken::F64 => TokenView::F64,
            ExactToken::Bool => TokenView::Bool,
            ExactToken::CharType => TokenView::CharType,
            ExactToken::StringType => TokenView::StringType,
        }
    }

    /// Whether the token is a keyword or the name of a primitive type, and so
    /// is spelled like an identifier.
    pub open spec fn is_keyword(self) -> bool {
        match self {
            ExactToken::LeftParen => false,
            ExactToken::RightParen => false,
            ExactToken::LeftBrace => false,
            ExactToken::RightBrace => false,
            ExactToken::LeftBracket => false,
            ExactToken::RightBracket => false,
            ExactToken::Comma => false,
            ExactToken::Dot => false,
            ExactToken::Colon => false,
            ExactToken::Semicolon => false,
            ExactToken::Plus => false,
            ExactToken::Minus => false,
            ExactToken::Star => false,
            ExactToken::Slash => false,
            ExactToken::Percent => false,
            ExactToken::Arrow => false,
            ExactToken::Equals => false,
            _ => true,
        }
    }

    /// The text that the token stands for.
    pub fn literal(self) -> (text: &'static str)
        ensures
            text@ == self.text(),
    {
        match self {
            ExactToken::LeftParen => "(",
            ExactToken::RightParen => ")",
            ExactToken::LeftBrace => "{",
            ExactToken::RightBrace => "}",
            ExactToken::LeftBracket => "[",
            ExactToken::RightBracket => "]",
            ExactToken::Comma => ",",
            ExactToken::Dot => ".",
            ExactToken::Colon => ":",
            ExactToken::Semicolon => ";",
            ExactToken::Plus => "+",
            ExactToken::Minus => "-",
            ExactToken::Star => "*",
            ExactToken::Slash => "/",
            ExactToken::Percent => "%",
            ExactToken::Arrow => "->",
            ExactToken::Equals => "=",
            ExactToken::Function => "function",
            ExactToken::Let => "let",
            ExactToken::Mut => "mut",
            ExactToken::If => "if",
            ExactToken::Else => "else",
            ExactToken::I8 => "i8",
            ExactToken::I16 => "i16",
            ExactToken::I32 => "i32",
            ExactToken::I64 => "i64",
            ExactToken::Iptr => "iptr",
            ExactToken::U8 => "u8",
            ExactToken::U16 => "u16",
            ExactToken::U32 => "u32",
            ExactToken::U64 => "u64",
            ExactToken::Uptr => "uptr",
            ExactToken::F32 => "f32",
            ExactToken::F64 => "f64",
            ExactToken::Bool => "bool",
            ExactToken::CharType => "char",
            ExactToken::StringType => "string",
        }
    }

    /// The token itself.
    pub fn to_token(self) -> (token: Token)
        ensures
            token@ == self.token(),
    {
        match self {
            ExactToken::LeftParen => Token::LeftParen,
            ExactToken::RightParen => Token::RightParen,
            ExactToken::LeftBrace => Token::LeftBrace,
            ExactToken::RightBrace => Token::RightBrace,
            ExactToken::LeftBracket => Token::LeftBracket,
            ExactToken::RightBracket => Token::RightBracket,
            ExactToken::Comma => Token::Comma,
            ExactToken::Dot => Token::Dot,
            ExactToken::Colon => Token::Colon,
            ExactToken::Semicolon => Token::Semicolon,
            ExactToken::Plus => Token::Plus,
            ExactToken::Minus => Token::Minus,
            ExactToken::Star => Token::Star,
            ExactToken::Slash => Token::Slash,
            ExactToken::Percent => Token::Percent,
            ExactToken::Arrow => Token::Arrow,
            ExactToken::Equals => Token::Equals,
            ExactToken::Function => Token::Function,
            ExactToken::Let => Token::Let,
            ExactToken::Mut => Token::Mut,
            ExactToken::If => Token::If,
            ExactToken::Else => Token::Else,
            ExactToken::I8 => Token::I8,
            ExactToken::I16 => Token::I16,
            ExactToken::I32 => Token::I32,
            ExactToken::I64 => Token::I64,
            ExactToken::Iptr => Token::Iptr,
            ExactToken::U8 => Token::U8,
            ExactToken::U16 => Token::U16,
            ExactToken::U32 => Token::U32,
            ExactToken::U64 => Token::U64,
            ExactToken::Uptr => Token::Uptr,
            ExactToken::F32 => Token::F32,
            ExactToken::F64 => Token::F64,
            ExactToken::Bool => Token::Bool,
            ExactToken::CharType => Token::CharType,
            ExactToken::StringType => Token::StringType,
        }
    }
}

/// Matches one fixed text, character by character. `offset` counts the
/// characters matched so far.
#[derive(Clone, Copy, Debug)]
pub struct ExactParser {
    pub token: ExactToken,
    pub offset: usize,
}

impl ExactParser {
    /// The matcher for `token`, with nothing read.
    pub fn new(token: ExactToken) -> (parser: ExactParser)
        ensures
            parser == (ExactParser { token, offset: 0 }),
    {
        ExactParser { token, offset: 0 }
    }

    /// The state after `character`: alive only if `character` is the next one
    /// of the fixed text.
    pub open spec fn advance(self, character: char) -> Option<ExactParser> {
        if self.offset < self.token.text().len() && self.token.text()[self.offset as int]
            == character {
            Some(ExactParser { token: self.token, offset: (self.offset + 1) as usize })
        } else {
            None
        }
    }

    /// The token, once the whole fixed text has been read.
    pub open spec fn finish(self) -> Option<TokenView> {
        if self.offset == self.token.text().len() {
            Some(self.token.token())
        } else {
            None
        }
    }

    /// The state after `character`, or `None` if the matcher rejects it.
    pub fn accept(&self, character: char) -> (next: Option<ExactParser>)
        ensures
            next == self.advance(character),
    {
        let text = self.token.literal();
        if self.offset < text.unicode_len() && text.get_char(self.offset) == character {
            Some(ExactParser { token: self.token, offset: self.offset + 1 })
        } else {
            None
        }
    }

    /// The token, if the matcher can complete in this state.
    pub fn complete(&self) -> (token: Option<Token>)
        ensures
            token.deep_view() == self.finish(),
    {
        if self.offset == self.token.literal().unicode_len() {
            Some(self.token.to_token())
        } else {
            None
        }
    }
}

/// Matches an identifier: a first character that is alphabetic or `_`, then
/// any number of characters that are alphanumeric or `_`.
#[derive(Clone, Copy, Debug)]
pub struct IdentifierParser {
    /// Whether at least one character has been read.
    pub started: bool,
}

impl IdentifierParser {
    /// The matcher with nothing read.
    pub fn new() -> (parser: IdentifierParser)
        ensures
            parser == (IdentifierParser { started: false }),
    {
        IdentifierParser { started: false }
    }

    /// The state after `character`, or `None` if the matcher rejects it.
    pub open spec fn advance(self, character: char) -> Option<IdentifierParser> {
        if is_alphabetic(character) || character == '_' || (self.started && is_numeric(
            character,
        )) {
            Some(IdentifierParser { started: true })
        } else {
            None
        }
    }

    /// The identifier named by the text read.
    pub open spec fn finish(self, text: Seq<char>) -> Option<TokenView> {
        Some(TokenView::Identifier(text))
    }

    /// The state after `character`, or `None` if the matcher rejects it.
    pub fn accept(&self, character: char) -> (next: Option<IdentifierParser>)
        ensures
            next == self.advance(character),
    {
        if alphabetic(character) || character == '_' || (self.started && numeric(character)) {
            Some(IdentifierParser { started: true })
        } else {
            None
        }
    }

    /// The token made of the text `input[start..end]`, which brought the
    /// matcher into this state, if the matcher can complete on it.
    pub fn complete(&self, input: &Vec<char>, start: usize, end: usize) -> (token: Option<Token>)
        requires
            start <= end <= input.len(),
        ensures
            token.deep_view() == self.finish(input@.subrange(start as int, end as int)),
    {
        Some(Token::Identifier(collect(input, start, end)))
    }
}

/// Matches a macro call: a run of characters that are alphanumeric or `_`,
/// closed by a `!`. Nothing may follow the `!`, and without it the matcher
/// cannot complete.
#[derive(Clone, Copy, Debug)]
pub struct MacroCallParser {
    pub found_bang: bool,
}

impl MacroCallParser {
    /// The matcher with nothing read.
    pub fn new() -> (parser: MacroCallParser)
        ensures
            parser == (MacroCallParser { found_bang: false }),
    {
        MacroCallParser { found_bang: false }
    }

    /// The state after `character`, or `None` if the matcher rejects it.
    pub open spec fn advance(self, character: char) -> Option<MacroCallParser> {
        if self.found_bang {
            None
        } else if is_alphanumeric(character) || character == '_' {
            Some(MacroCallParser { found_bang: false })
        } else if character == '!' {
            Some(MacroCallParser { found_bang: true })
        } else {
            None
        }
    }

    /// The macro call named by the text before the `!`.
    pub open spec fn finish(self, text: Seq<char>) -> Option<TokenView> {
        if self.found_bang && text.len() > 0 {
            Some(TokenView::MacroCall(text.drop_last()))
        } else {
            None
        }
    }

    /// The state after `character`, or `None` if the matcher rejects it.
    pub fn accept(&self, character: char) -> (next: Option<MacroCallParser>)
        ensures
            next == self.advance(character),
    {
        if self.found_bang {
            None
        } else if alphanumeric(character) || character == '_' {
            Some(MacroCallParser { found_bang: false })
        } else if character == '!' {
            Some(MacroCallParser { found_bang: true })
        } else {
            None
        }
    }

    /// The token made of the text `input[start..end]`, which brought the
    /// matcher into this state, if the matcher can complete on it.
    pub fn complete(&self, input: &Vec<char>, start: usize, end: usize) -> (token: Option<Token>)
        requires
            start <= end <= input.len(),
        ensures
            token.deep_view() == self.finish(input@.subrange(start as int, end as int)),
    {
        if self.found_bang && start < end {
            proof {
                assert(input@.subrange(start as int, end as int).drop_last() =~= input@.subrange(
                    start as int,
                    end - 1,
                ));
            }
            Some(Token::MacroCall(collect(input, start, end - 1)))
        } else {
            None
        }
    }
}

/// Matches an integer literal: one or more numeric characters.
#[derive(Clone, Copy, Debug)]
pub struct IntegerParser {}

impl IntegerParser {
    /// The matcher with nothing read.
    pub fn new() -> (parser: IntegerParser)
        ensures
            parser == (IntegerParser {  }),
    {
        IntegerParser {  }
    }

    /// The state after `character`, or `None` if the matcher rejects it.
    pub open spec fn advance(self, character: char) -> Option<IntegerParser> {
        if is_numeric(character) {
            Some(IntegerParser {  })
        } else {
            None
        }
    }

    /// The integer that the text denotes in decimal. This speaks of texts that
    /// [`denotes_i128`] holds of; of others it says nothing useful.
    pub open spec fn finish(self, text: Seq<char>) -> Option<TokenView> {
        Some(TokenView::Integer(decimal_value(text) as i128))
    }

    /// The state after `character`, or `None` if the matcher rejects it.
    pub fn accept(&self, character: char) -> (next: Option<IntegerParser>)
        ensures
            next == self.advance(character),
    {
        if numeric(character) {
            Some(IntegerParser {  })
        } else {
            None
        }
    }

    /// The token made of the text `input[start..end]`, which brought the
    /// matcher into this state, if the matcher can complete on it.
    pub fn complete(&self, input: &Vec<char>, start: usize, end: usize) -> (token: Option<Token>)
        requires
            start <= end <= input.len(),
            denotes_i128(input@.subrange(start as int, end as int)),
        ensures
            token.deep_view() == self.finish(input@.subrange(start as int, end as int)),
    {
        Some(Token::Integer(read_decimal(input, start, end).unwrap()))
    }
}

/// Matches a float literal: numeric characters around exactly one decimal
/// point, with at least one numeric character.
#[derive(Clone, Copy, Debug)]
pub struct FloatParser {
    pub found_dot: bool,
    pub found_digit: bool,
}

impl FloatParser {
    /// The matcher with nothing read.
    pub fn new() -> (parser: FloatParser)
        ensures
            parser == (FloatParser { found_dot: false, found_digit: false }),
    {
        FloatParser { found_dot: false, found_digit: false }
    }

    /// The state after `character`, or `None` if the matcher rejects it.
    pub open spec fn advance(self, character: char) -> Option<FloatParser> {
        if is_numeric(character) {
            Some(FloatParser { found_dot: self.found_dot, found_digit: true })
        } else if character == '.' && !self.found_dot {
            Some(FloatParser { found_dot: true, found_digit: self.found_digit })
        } else {
            None
        }
    }

    /// The float literal with the text read, once it holds the decimal point
    /// and a numeric character.
    pub open spec fn finish(self, text: Seq<char>) -> Option<TokenView> {
        if self.found_dot && self.found_digit {
            Some(TokenView::Float(text))
        } else {
            None
        }
    }

    /// The state after `character`, or `None` if the matcher rejects it.
    pub fn accept(&self, character: char) -> (next: Option<FloatParser>)
        ensures
            next == self.advance(character),
    {
        if numeric(character) {
            Some(FloatParser { found_dot: self.found_dot, found_digit: true })
        } else if character == '.' && !self.found_dot {
            Some(FloatParser { found_dot: true, found_digit: self.found_digit })
        } else {
            None
        }
    }

    /// The token made of the text `input[start..end]`, which brought the
    /// matcher into this state, if the matcher can complete on it.
    pub fn complete(&self, input: &Vec<char>, start: usize, end: usize) -> (token: Option<Token>)
        requires
            start <= end <= input.len(),
        ensures
            token.deep_view() == self.finish(input@.subrange(start as int, end as int)),
    {
        if self.found_dot && self.found_digit {
            Some(Token::Float(collect(input, start, end)))
        } else {
            None
        }
    }
}

/// Matches a string literal: an opening `"`, then any characters up to the
/// first `"` that is not escaped. A backslash escapes the character after it,
/// whatever that is, so an escaped backslash escapes nothing.
#[derive(Clone, Copy, Debug)]
pub struct StringParser {
    pub found_initial_quote: bool,
    pub found_terminal_quote: bool,
    pub next_character_is_escaped: bool,
}

impl StringParser {
    /// The matcher with nothing read.
    pub fn new() -> (parser: StringParser)
        ensures
            parser == (StringParser {
                found_initial_quote: false,
                found_terminal_quote: false,
                next_character_is_escaped: false,
            }),
    {
        StringParser {
            found_initial_quote: false,
            found_terminal_quote: false,
            next_character_is_escaped: false,
        }
    }

    /// The state after `character`, or `None` if the matcher rejects it.
    pub open spec fn advance(self, character: char) -> Option<StringParser> {
        if self.found_terminal_quote {
            None
        } else if !self.found_initial_quote {
            if character == '"' {
                Some(
                    StringParser {
                        found_initial_quote: true,
                        found_terminal_quote: false,
                        next_character_is_escaped: false,
                    },
                )
            } else {
                None
            }
        } else if character == '"' && !self.next_character_is_escaped {
            Some(
                StringParser {
                    found_initial_quote: true,
                    found_terminal_quote: true,
                    next_character_is_escaped: false,
                },
            )
        } else {
            Some(
                StringParser {
                    found_initial_quote: true,
                    found_terminal_quote: false,
                    next_character_is_escaped: character == '\\'
                        && !self.next_character_is_escaped,
                },
            )
        }
    }

    /// The string literal with the text between the two quotes, once the
    /// closing quote has been read.
    pub open spec fn finish(self, text: Seq<char>) -> Option<TokenView> {
        if self.found_terminal_quote && text.len() >= 2 {
            Some(TokenView::StringLiteral(text.subrange(1, text.len() - 1)))
        } else {
            None
        }
    }

    /// The state after `character`, or `None` if the matcher rejects it.
    pub fn accept(&self, character: char) -> (next: Option<StringParser>)
        ensures
            next == self.advance(character),
    {
        if self.found_terminal_quote {
            None
        } else if !self.found_initial_quote {
            if character == '"' {
                Some(
                    StringParser {
                        found_initial_quote: true,
                        found_terminal_quote: false,
                        next_character_is_escaped: false,
                    },
                )
            } else {
                None
            }
        } else if character == '"' && !self.next_character_is_escaped {
            Some(
                StringParser {
                    found_initial_quote: true,
                    found_terminal_quote: true,
                    next_character_is_escaped: false,
                },
            )
        } else {
            Some(
                StringParser {
                    found_initial_quote: true,
                    found_terminal_quote: false,
                    next_character_is_escaped: character == '\\'
                        && !self.next_character_is_escaped,
                },
            )
        }
    }

    /// The token made of the text `input[start..end]`, which brought the
    /// matcher into this state, if the matcher can complete on it.
    pub fn complete(&self, input: &Vec<char>, start: usize, end: usize) -> (token: Option<Token>)
        requires
            start <= end <= input.len(),
        ensures
            token.deep_view() == self.finish(input@.subrange(start as int, end as int)),
    {
        if self.found_terminal_quote && end - start >= 2 {
            proof {
                let text = input@.subrange(start as int, end as int);
                assert(text.subrange(1, text.len() - 1) =~= input@.subrange(start + 1, end - 1));
            }
            Some(Token::StringLiteral(collect(input, start + 1, end - 1)))
        } else {
            None
        }
    }
}

/// Whether `text` holds nothing but ASCII digits and decimal points, as a
/// float literal must if it is to be read as a number.
pub open spec fn is_plain_float(text: Seq<char>) -> bool {
    forall|i: int| 0 <= i < text.len() ==> #[trigger] text[i] == '.' || is_ascii_digit(text[i])
}

/// Tests whether `input[start..end]` holds nothing but ASCII digits and
/// decimal points.
pub fn plain_float(input: &Vec<char>, start: usize, end: usize) -> (plain: bool)
    requires
        start <= end <= input.len(),
    ensures
        plain == is_plain_float(input@.subrange(start as int, end as int)),
{
    let ghost text = input@.subrange(start as int, end as int);
    let mut at: usize = start;
    while at < end
        invariant
            start <= at <= end <= input.len(),
            text == input@.subrange(start as int, end as int),
            forall|i: int|
                0 <= i < at - start ==> #[trigger] text[i] == '.' || is_ascii_digit(text[i]),
        decreases end - at,
    {
        let character = input[at];
        if !(character == '.' || ascii_digit(character)) {
            proof {
                assert(text[at - start] == character);
            }
            return false;
        }
        at = at + 1;
    }
    true
}

/// A new string holding the characters `input[from..to]`.
pub fn collect(input: &Vec<char>, from: usize, to: usize) -> (text: String)
    requires
        from <= to <= input.len(),
    ensures
        text@ == input@.subrange(from as int, to as int),
{
    let mut text = String::new();
    let mut at: usize = from;
    while at < to
        invariant
            from <= at <= to <= input.len(),
            text@ == input@.subrange(from as int, at as int),
        decreases to - at,
    {
        push_char(&mut text, input[at]);
        proof {
            assert(input@.subrange(from as int, at + 1) =~= input@.subrange(
                from as int,
                at as int,
            ).push(input@[at as int]));
        }
        at = at + 1;
    }
    text
}

/// One matcher of any category, in some state.
#[derive(Clone, Copy, Debug)]
pub enum Candidate {
    Exact(ExactParser),
    Identifier(IdentifierParser),
    MacroCall(MacroCallParser),
    Float(FloatParser),
    Integer(IntegerParser),
    StringLiteral(StringParser),
}

impl Candidate {
    /// The matcher's state after one more character, or `None` if it rejects
    /// the character.
    pub open spec fn advance(self, character: char) -> Option<Candidate> {
        match self {
            Candidate::Exact(parser) => match parser.advance(character) {
                Some(next) => Some(Candidate::Exact(next)),
                None => None,
            },
            Candidate::Identifier(parser) => match parser.advance(character) {
                Some(next) => Some(Candidate::Identifier(next)),
                None => None,
            },
            Candidate::MacroCall(parser) => match parser.advance(character) {
                Some(next) => Some(Candidate::MacroCall(next)),
                None => None,
            },
            Candidate::Float(parser) => match parser.advance(character) {
                Some(next) => Some(Candidate::Float(next)),
                None => None,
            },
            Candidate::Integer(parser) => match parser.advance(character) {
                Some(next) => Some(Candidate::Integer(next)),
                None => None,
            },
            Candidate::StringLiteral(parser) => match parser.advance(character) {
                Some(next) => Some(Candidate::StringLiteral(next)),
                None => None,
            },
        }
    }

    /// The matcher's state after it has read all of `text`, one character
    /// after the other, or `None` if it rejects one of them.
    pub open spec fn run(self, text: Seq<char>) -> Option<Candidate>
        decreases text.len(),
    {
        if text.len() == 0 {
            Some(self)
        } else {
            match self.run(text.drop_last()) {
                Some(state) => state.advance(text.last()),
                None => None,
            }
        }
    }

    /// The token that the matcher makes of `text`, the text that brought it
    /// into this state, or `None` if it cannot complete here.
    pub open spec fn finish(self, text: Seq<char>) -> Option<TokenView> {
        match self {
            Candidate::Exact(parser) => parser.finish(),
            Candidate::Identifier(parser) => parser.finish(text),
            Candidate::MacroCall(parser) => parser.finish(text),
            Candidate::Float(parser) => parser.finish(text),
            Candidate::Integer(parser) => parser.finish(text),
            Candidate::StringLiteral(parser) => parser.finish(text),
        }
    }

    /// Whether `text` can be held as the number it is read as, should this
    /// matcher complete on it: an integer literal is made of ASCII digits and
    /// fits an `i128`, and a float literal has only ASCII digits around its
    /// point. Texts of the other categories always can.
    pub open spec fn reads_number(self, text: Seq<char>) -> bool {
        match self {
            Candidate::Integer(_) => denotes_i128(text),
            Candidate::Float(_) => is_plain_float(text),
            _ => true,
        }
    }

    /// The state after `character`, or `None` if the matcher rejects it.
    pub fn accept(&self, character: char) -> (next: Option<Candidate>)
        ensures
            next == self.advance(character),
    {
        match self {
            Candidate::Exact(parser) => match parser.accept(character) {
                Some(next) => Some(Candidate::Exact(next)),
                None => None,
            },
            Candidate::Identifier(parser) => match parser.accept(character) {
                Some(next) => Some(Candidate::Identifier(next)),
                None => None,
            },
            Candidate::MacroCall(parser) => match parser.accept(character) {
                Some(next) => Some(Candidate::MacroCall(next)),
                None => None,
            },
            Candidate::Float(parser) => match parser.accept(character) {
                Some(next) => Some(Candidate::Float(next)),
                None => None,
            },
            Candidate::Integer(parser) => match parser.accept(character) {
                Some(next) => Some(Candidate::Integer(next)),
                None => None,
            },
            Candidate::StringLiteral(parser) => match parser.accept(character) {
                Some(next) => Some(Candidate::StringLiteral(next)),
                None => None,
            },
        }
    }

    /// Whether the matcher can complete on a text of `length` characters that
    /// brought it into this state.
    pub fn can_complete(&self, length: usize) -> (able: bool)
        ensures
            forall|text: Seq<char>|
                text.len() == length ==> able == (#[trigger] self.finish(text) is Some),
    {
        match self {
            Candidate::Exact(parser) => parser.offset == parser.token.literal().unicode_len(),
            Candidate::Identifier(_) => true,
            Candidate::MacroCall(parser) => parser.found_bang && length > 0,
            Candidate::Float(parser) => parser.found_dot && parser.found_digit,
            Candidate::Integer(_) => true,
            Candidate::StringLiteral(parser) => parser.found_terminal_quote && length >= 2,
        }
    }

    /// Whether the text `input[start..end]` can be held as the number that
    /// this matcher reads it as.
    pub fn fits(&self, input: &Vec<char>, start: usize, end: usize) -> (fit: bool)
        requires
            start <= end <= input.len(),
        ensures
            fit == self.reads_number(input@.subrange(start as int, end as int)),
    {
        match self {
            Candidate::Integer(_) => read_decimal(input, start, end).is_some(),
            Candidate::Float(_) => plain_float(input, start, end),
            _ => true,
        }
    }

    /// Completes on the text `input[start..end]`.
    pub fn complete(&self, input: &Vec<char>, start: usize, end: usize) -> (token: Option<Token>)
        requires
            start <= end <= input.len(),
            self.finish(input@.subrange(start as int, end as int)) is Some ==> self.reads_number(
                input@.subrange(start as int, end as int),
            ),
        ensures
            token.deep_view() == self.finish(input@.subrange(start as int, end as int)),
    {
        match self {
            Candidate::Exact(parser) => parser.complete(),
            Candidate::Identifier(parser) => parser.complete(input, start, end),
            Candidate::MacroCall(parser) => parser.complete(input, start, end),
            Candidate::Float(parser) => parser.complete(input, start, end),
            Candidate::Integer(parser) => parser.complete(input, start, end),
            Candidate::StringLiteral(parser) => parser.complete(input, start, end),
        }
    }
}

/// Every matcher in its initial state, in registration order. The order
/// decides between matchers that complete on the same text: keywords and type
/// names stand before the identifier matcher, and `->` before `-`.
pub open spec fn registry() -> Seq<Candidate> {
    seq![
        Candidate::Exact(ExactParser { token: ExactToken::Function, offset: 0 }),
        Candidate::Exact(ExactParser { token: ExactToken::Let, offset: 0 }),
        Candidate::Exact(ExactParser { token: ExactToken::Mut, offset: 0 }),
        Candidate::Exact(ExactParser { token: ExactToken::If, offset: 0 }),
        Candidate::Exact(ExactParser { token: ExactToken::Else, offset: 0 }),
        Candidate::Exact(ExactParser { token: ExactToken::I8, offset: 0 }),
        Candidate::Exact(ExactParser { token: ExactToken::I16, offset: 0 }),
        Candidate::Exact(ExactParser { token: ExactToken::I32, offset: 0 }),
        Candidate::Exact(ExactParser { token: ExactToken::I64, offset: 0 }),
        Candidate::Exact(ExactParser { token: ExactToken::Iptr, offset: 0 }),
        Candidate::Exact(ExactParser { token: ExactToken::U8, offset: 0 }),
        Candidate::Exact(ExactParser { token: ExactToken::U16, offset: 0 }),
        Candidate::Exact(ExactParser { token: ExactToken::U32, offset: 0 }),
        Candidate::Exact(ExactParser { token: ExactToken::U64, offset: 0 }),
        Candidate::Exact(ExactParser { token: ExactToken::Uptr, offset: 0 }),
        Candidate::Exact(ExactParser { token: ExactToken::F32, offset: 0 }),
        Candidate::Exact(ExactParser { token: ExactToken::F64, offset: 0 }),
        Candidate::Exact(ExactParser { token: ExactToken::Bool, offset: 0 }),
        Candidate::Exact(ExactParser { token: ExactToken::CharType, offset: 0 }),
        Candidate::Exact(ExactParser { token: ExactToken::StringType, offset: 0 }),
        Candidate::Identifier(IdentifierParser { started: false }),
        Candidate::MacroCall(MacroCallParser { found_bang: false }),
        Candidate::Float(FloatParser { found_dot: false, found_digit: false }),
        Candidate::Integer(IntegerParser {  }),
        Candidate::StringLiteral(StringParser { found_initial_quote: false, found_terminal_quote: false, next_character_is_escaped: false }),
        Candidate::Exact(ExactParser { token: ExactToken::LeftParen, offset: 0 }),
        Candidate::Exact(ExactParser { token: ExactToken::RightParen, offset: 0 }),
        Candidate::Exact(ExactParser { token: ExactToken::LeftBrace, offset: 0 }),
        Candidate::Exact(ExactParser { token: ExactToken::RightBrace, offset: 0 }),
        Candidate::Exact(ExactParser { token: ExactToken::LeftBracket, offset: 0 }),
        Candidate::Exact(ExactParser { token: ExactToken::RightBracket, offset: 0 }),
        Candidate::Exact(ExactParser { token: ExactToken::Comma, offset: 0 }),
        Candidate::Exact(ExactParser { token: ExactToken::Dot, offset: 0 }),
        Candidate::Exact(ExactParser { token: ExactToken::Colon, offset: 0 }),
        Candidate::Exact(ExactParser { token: ExactToken::Semicolon, offset: 0 }),
        Candidate::Exact(ExactParser { token: ExactToken::Plus, offset: 0 }),
        Candidate::Exact(ExactParser { token: ExactToken::Arrow, offset: 0 }),
        Candidate::Exact(ExactParser { token: ExactToken::Minus, offset: 0 }),
        Candidate::Exact(ExactParser { token: ExactToken::Star, offset: 0 }),
        Candidate::Exact(ExactParser { token: ExactToken::Slash, offset: 0 }),
        Candidate::Exact(ExactParser { token: ExactToken::Percent, offset: 0 }),
        Candidate::Exact(ExactParser { token: ExactToken::Equals, offset: 0 }),
    ]
}

/// Every matcher in its initial state, in registration order.
pub fn initial_candidates() -> (candidates: Vec<Candidate>)
    ensures
        candidates@ == registry(),
{
    let candidates = vec![
        Candidate::Exact(ExactParser::new(ExactToken::Function)),
        Candidate::Exact(ExactParser::new(ExactToken::Let)),
        Candidate::Exact(ExactParser::new(ExactToken::Mut)),
        Candidate::Exact(ExactParser::new(ExactToken::If)),
        Candidate::Exact(ExactParser::new(ExactToken::Else)),
        Candidate::Exact(ExactParser::new(ExactToken::I8)),
        Candidate::Exact(ExactParser::new(ExactToken::I16)),
        Candidate::Exact(ExactParser::new(ExactToken::I32)),
        Candidate::Exact(ExactParser::new(ExactToken::I64)),
        Candidate::Exact(ExactParser::new(ExactToken::Iptr)),
        Candidate::Exact(ExactParser::new(ExactToken::U8)),
        Candidate::Exact(ExactParser::new(ExactToken::U16)),
        Candidate::Exact(ExactParser::new(ExactToken::U32)),
        Candidate::Exact(ExactParser::new(ExactToken::U64)),
        Candidate::Exact(ExactParser::new(ExactToken::Uptr)),
        Candidate::Exact(ExactParser::new(ExactToken::F32)),
        Candidate::Exact(ExactParser::new(ExactToken::F64)),
        Candidate::Exact(ExactParser::new(ExactToken::Bool)),
        Candidate::Exact(ExactParser::new(ExactToken::CharType)),
        Candidate::Exact(ExactParser::new(ExactToken::StringType)),
        Candidate::Identifier(IdentifierParser::new()),
        Candidate::MacroCall(MacroCallParser::new()),
        Candidate::Float(FloatParser::new()),
        Candidate::Integer(IntegerParser::new()),
        Candidate::StringLiteral(StringParser::new()),
        Candidate::Exact(ExactParser::new(ExactToken::LeftParen)),
        Candidate::Exact(ExactParser::new(ExactToken::RightParen)),
        Candidate::Exact(ExactParser::new(ExactToken::LeftBrace)),
        Candidate::Exact(ExactParser::new(ExactToken::RightBrace)),
        Candidate::Exact(ExactParser::new(ExactToken::LeftBracket)),
        Candidate::Exact(ExactParser::new(ExactToken::RightBracket)),
        Candidate::Exact(ExactParser::new(ExactToken::Comma)),
        Candidate::Exact(ExactParser::new(ExactToken::Dot)),
        Candidate::Exact(ExactParser::new(ExactToken::Colon)),
        Candidate::Exact(ExactParser::new(ExactToken::Semicolon)),
        Candidate::Exact(ExactParser::new(ExactToken::Plus)),
        Candidate::Exact(ExactParser::new(ExactToken::Arrow)),
        Candidate::Exact(ExactParser::new(ExactToken::Minus)),
        Candidate::Exact(ExactParser::new(ExactToken::Star)),
        Candidate::Exact(ExactParser::new(ExactToken::Slash)),
        Candidate::Exact(ExactParser::new(ExactToken::Percent)),
        Candidate::Exact(ExactParser::new(ExactToken::Equals)),
    ];
    assert(candidates@ =~= registry());
    candidates
}

} // verus!
