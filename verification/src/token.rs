//! The lexical categories of the language and their printable form.

use crate::chars::{decimal, push_char, push_decimal};
use vstd::prelude::*;

verus! {

/// One lexical unit of the source text.
///
/// A float literal is kept as the text that was matched (digits around a
/// single decimal point); turning it into a machine number is left to the
/// consumer. A string literal holds the text between its quotes as written,
/// escape sequences included.
#[derive(Debug, PartialEq)]
pub enum Token {
    /// A name.
    Identifier(String),
    /// A name followed by `!`; the name is kept.
    MacroCall(String),
    /// An integer literal, by value.
    Integer(i128),
    /// A float literal, by its text.
    Float(String),
    /// A string literal, by the text between the quotes.
    StringLiteral(String),
    /// A single character.
    Char(char),
    /// `(`
    LeftParen,
    /// `)`
    RightParen,
    /// `{`
    LeftBrace,
    /// `}`
    RightBrace,
    /// `[`
    LeftBracket,
    /// `]`
    RightBracket,
    /// `,`
    Comma,
    /// `.`
    Dot,
    /// `:`
    Colon,
    /// `;`
    Semicolon,
    /// `+`
    Plus,
    /// `-`
    Minus,
    /// `*`
    Star,
    /// `/`
    Slash,
    /// `%`
    Percent,
    /// `->`
    Arrow,
    /// `=`
    Equals,
    /// The keyword `function`.
    Function,
    /// The keyword `let`.
    Let,
    /// The keyword `mut`.
    Mut,
    /// The keyword `if`.
    If,
    /// The keyword `else`.
    Else,
    /// The keyword `i8`.
    I8,
    /// The keyword `i16`.
    I16,
    /// The keyword `i32`.
    I32,
    /// The keyword `i64`.
    I64,
    /// The keyword `iptr`.
    Iptr,
    /// The keyword `u8`.
    U8,
    /// The keyword `u16`.
    U16,
    /// The keyword `u32`.
    U32,
    /// The keyword `u64`.
    U64,
    /// The keyword `uptr`.
    Uptr,
    /// The keyword `f32`.
    F32,
    /// The keyword `f64`.
    F64,
    /// The keyword `bool`.
    Bool,
    /// The keyword `char`.
    CharType,
    /// The keyword `string`.
    StringType,
    /// What the tokenizer emits, once, when the text cannot be tokenized.
    Error(String),
}

/// The mathematical value of a [`Token`]: the same variants, with texts as
/// sequences of characters.
pub enum TokenView {
    Identifier(Seq<char>),
    MacroCall(Seq<char>),
    Integer(i128),
    Float(Seq<char>),
    StringLiteral(Seq<char>),
    Char(char),
    LeftParen,
    RightParen,
    LeftBrace,
    RightBrace,
    LeftBracket,
    RightBracket,
    Comma,
    Dot,
    Colon,
    Semicolon,
    Plus,
    Minus,
    Star,
    Slash,
    Percent,
    Arrow,
    Equals,
    Function,
    Let,
    Mut,
    If,
    Else,
    I8,
    I16,
    I32,
    I64,
    Iptr,
    U8,
    U16,
    U32,
    U64,
    Uptr,
    F32,
    F64,
    Bool,
    CharType,
    StringType,
    Error(Seq<char>),
}

impl View for Token {
    type V = TokenView;

    open spec fn view(&self) -> TokenView {
        match self {
            Token::Identifier(s) => TokenView::Identifier(s@),
            Token::MacroCall(s) => TokenView::MacroCall(s@),
            Token::Integer(i) => TokenView::Integer(*i),
            Token::Float(s) => TokenView::Float(s@),
            Token::StringLiteral(s) => TokenView::StringLiteral(s@),
            Token::Char(c) => TokenView::Char(*c),
            Token::LeftParen => TokenView::LeftParen,
            Token::RightParen => TokenView::RightParen,
            Token::LeftBrace => TokenView::LeftBrace,
            Token::RightBrace => TokenView::RightBrace,
            Token::LeftBracket => TokenView::LeftBracket,
            Token::RightBracket => TokenView::RightBracket,
            Token::Comma => TokenView::Comma,
            Token::Dot => TokenView::Dot,
            Token::Colon => TokenView::Colon,
            Token::Semicolon => TokenView::Semicolon,
            Token::Plus => TokenView::Plus,
            Token::Minus => TokenView::Minus,
            Token::Star => TokenView::Star,
            Token::Slash => TokenView::Slash,
            Token::Percent => TokenView::Percent,
            Token::Arrow => TokenView::Arrow,
            Token::Equals => TokenView::Equals,
            Token::Function => TokenView::Function,
            Token::Let => TokenView::Let,
            Token::Mut => TokenView::Mut,
            Token::If => TokenView::If,
            Token::Else => TokenView::Else,
            Token::I8 => TokenView::I8,
            Token::I16 => TokenView::I16,
            Token::I32 => TokenView::I32,
            Token::I64 => TokenView::I64,
            Token::Iptr => TokenView::Iptr,
            Token::U8 => TokenView::U8,
            Token::U16 => TokenView::U16,
            Token::U32 => TokenView::U32,
            Token::U64 => TokenView::U64,
            Token::Uptr => TokenView::Uptr,
            Token::F32 => TokenView::F32,
            Token::F64 => TokenView::F64,
            Token::Bool => TokenView::Bool,
            Token::CharType => TokenView::CharType,
            Token::StringType => TokenView::StringType,
            Token::Error(s) => TokenView::Error(s@),
        }
    }
}

impl DeepView for Token {
    type V = TokenView;

    open spec fn deep_view(&self) -> TokenView {
        self@
    }
}

impl Clone for Token {
    /// An independent copy with the same value.
    fn clone(&self) -> (copy: Token)
        ensures
            copy@ == self@,
    {
        match self {
            Token::Identifier(s) => Token::Identifier(s.clone()),
            Token::MacroCall(s) => Token::MacroCall(s.clone()),
            Token::Integer(i) => Token::Integer(*i),
            Token::Float(s) => Token::Float(s.clone()),
            Token::StringLiteral(s) => Token::StringLiteral(s.clone()),
            Token::Char(c) => Token::Char(*c),
            Token::LeftParen => Token::LeftParen,
            Token::RightParen => Token::RightParen,
            Token::LeftBrace => Token::LeftBrace,
            Token::RightBrace => Token::RightBrace,
            Token::LeftBracket => Token::LeftBracket,
            Token::RightBracket => Token::RightBracket,
            Token::Comma => Token::Comma,
            Token::Dot => Token::Dot,
            Token::Colon => Token::Colon,
            Token::Semicolon => Token::Semicolon,
            Token::Plus => Token::Plus,
            Token::Minus => Token::Minus,
            Token::Star => Token::Star,
            Token::Slash => Token::Slash,
            Token::Percent => Token::Percent,
            Token::Arrow => Token::Arrow,
            Token::Equals => Token::Equals,
            Token::Function => Token::Function,
            Token::Let => Token::Let,
            Token::Mut => Token::Mut,
            Token::If => Token::If,
            Token::Else => Token::Else,
            Token::I8 => Token::I8,
            Token::I16 => Token::I16,
            Token::I32 => Token::I32,
            Token::I64 => Token::I64,
            Token::Iptr => Token::Iptr,
            Token::U8 => Token::U8,
            Token::U16 => Token::U16,
            Token::U32 => Token::U32,
            Token::U64 => Token::U64,
            Token::Uptr => Token::Uptr,
            Token::F32 => Token::F32,
            Token::F64 => Token::F64,
            Token::Bool => Token::Bool,
            Token::CharType => Token::CharType,
            Token::StringType => Token::StringType,
            Token::Error(s) => Token::Error(s.clone()),
        }
    }
}

impl TokenView {
    /// The printable form of a token: its text between single quotes. A string
    /// literal keeps its double quotes inside them, a macro call its `!`, and
    /// a character is shown in single quotes between double quotes.
    pub open spec fn representation(self) -> Seq<char> {
        match self {
            TokenView::Identifier(s) => seq!['\''] + s + seq!['\''],
            TokenView::MacroCall(s) => seq!['\''] + s + seq!['!', '\''],
            TokenView::Integer(i) => seq!['\''] + decimal(i as int) + seq!['\''],
            TokenView::Float(s) => seq!['\''] + s + seq!['\''],
            TokenView::StringLiteral(s) => seq!['\'', '"'] + s + seq!['"', '\''],
            TokenView::Char(c) => seq!['"', '\'', c, '\'', '"'],
            TokenView::LeftParen => "'('"@,
            TokenView::RightParen => "')'"@,
            TokenView::LeftBrace => "'{'"@,
            TokenView::RightBrace => "'}'"@,
            TokenView::LeftBracket => "'['"@,
            TokenView::RightBracket => "']'"@,
            TokenView::Comma => "','"@,
            TokenView::Dot => "'.'"@,
            TokenView::Colon => "':'"@,
            TokenView::Semicolon => "';'"@,
            TokenView::Plus => "'+'"@,
            TokenView::Minus => "'-'"@,
            TokenView::Star => "'*'"@,
            TokenView::Slash => "'/'"@,
            TokenView::Percent => "'%'"@,
            TokenView::Arrow => "'->'"@,
            TokenView::Equals => "'='"@,
            TokenView::Function => "'function'"@,
            TokenView::Let => "'let'"@,
            TokenView::Mut => "'mut'"@,
            TokenView::If => "'if'"@,
            TokenView::Else => "'else'"@,
            TokenView::I8 => "'i8'"@,
            TokenView::I16 => "'i16'"@,
            TokenView::I32 => "'i32'"@,
            TokenView::I64 => "'i64'"@,
            TokenView::Iptr => "'iptr'"@,
            TokenView::U8 => "'u8'"@,
            TokenView::U16 => "'u16'"@,
            TokenView::U32 => "'u32'"@,
            TokenView::U64 => "'u64'"@,
            TokenView::Uptr => "'uptr'"@,
            TokenView::F32 => "'f32'"@,
            TokenView::F64 => "'f64'"@,
            TokenView::Bool => "'bool'"@,
            TokenView::CharType => "'char'"@,
            TokenView::StringType => "'string'"@,
            TokenView::Error(s) => seq!['\''] + s + seq!['\''],
        }
    }
}

/// A new string holding `open`, then `body`, then `close`.
fn enclose(open: &str, body: &str, close: &str) -> (text: String)
    ensures
        text@ == open@ + body@ + close@,
{
    let mut text = open.to_owned();
    text.append(body);
    text.append(close);
    text
}

impl Token {
    /// Whether the two tokens have the same value.
    pub fn same(&self, other: &Token) -> (same: bool)
        ensures
            same == (self@ == other@),
    {
        match (self, other) {
            (Token::Identifier(a), Token::Identifier(b)) => *a == *b,
            (Token::MacroCall(a), Token::MacroCall(b)) => *a == *b,
            (Token::Integer(a), Token::Integer(b)) => *a == *b,
            (Token::Float(a), Token::Float(b)) => *a == *b,
            (Token::StringLiteral(a), Token::StringLiteral(b)) => *a == *b,
            (Token::Char(a), Token::Char(b)) => *a == *b,
            (Token::LeftParen, Token::LeftParen) => true,
            (Token::RightParen, Token::RightParen) => true,
            (Token::LeftBrace, Token::LeftBrace) => true,
            (Token::RightBrace, Token::RightBrace) => true,
            (Token::LeftBracket, Token::LeftBracket) => true,
            (Token::RightBracket, Token::RightBracket) => true,
            (Token::Comma, Token::Comma) => true,
            (Token::Dot, Token::Dot) => true,
            (Token::Colon, Token::Colon) => true,
            (Token::Semicolon, Token::Semicolon) => true,
            (Token::Plus, Token::Plus) => true,
            (Token::Minus, Token::Minus) => true,
            (Token::Star, Token::Star) => true,
            (Token::Slash, Token::Slash) => true,
            (Token::Percent, Token::Percent) => true,
            (Token::Arrow, Token::Arrow) => true,
            (Token::Equals, Token::Equals) => true,
            (Token::Function, Token::Function) => true,
            (Token::Let, Token::Let) => true,
            (Token::Mut, Token::Mut) => true,
            (Token::If, Token::If) => true,
            (Token::Else, Token::Else) => true,
            (Token::I8, Token::I8) => true,
            (Token::I16, Token::I16) => true,
            (Token::I32, Token::I32) => true,
            (Token::I64, Token::I64) => true,
            (Token::Iptr, Token::Iptr) => true,
            (Token::U8, Token::U8) => true,
            (Token::U16, Token::U16) => true,
            (Token::U32, Token::U32) => true,
            (Token::U64, Token::U64) => true,
            (Token::Uptr, Token::Uptr) => true,
            (Token::F32, Token::F32) => true,
            (Token::F64, Token::F64) => true,
            (Token::Bool, Token::Bool) => true,
            (Token::CharType, Token::CharType) => true,
            (Token::StringType, Token::StringType) => true,
            (Token::Error(a), Token::Error(b)) => *a == *b,
            _ => false,
        }
    }

    /// The printable form of the token.
    pub fn to_string(&self) -> (text: String)
        ensures
            text@ == self@.representation(),
    {
        proof {
            reveal_strlit("'");
            reveal_strlit("!'");
            reveal_strlit("'\"");
            reveal_strlit("\"'");
        }
        match self {
            Token::Identifier(s) => enclose("'", s.as_str(), "'"),
            Token::MacroCall(s) => enclose("'", s.as_str(), "!'"),
            Token::Integer(i) => {
                let mut text = "'".to_owned();
                push_decimal(&mut text, *i);
                push_char(&mut text, '\'');
                text
            },
            Token::Float(s) => enclose("'", s.as_str(), "'"),
            Token::StringLiteral(s) => enclose("'\"", s.as_str(), "\"'"),
            Token::Char(c) => {
                let mut text = String::new();
                push_char(&mut text, '"');
                push_char(&mut text, '\'');
                push_char(&mut text, *c);
                push_char(&mut text, '\'');
                push_char(&mut text, '"');
                text
            },
            Token::LeftParen => "'('".to_owned(),
            Token::RightParen => "')'".to_owned(),
            Token::LeftBrace => "'{'".to_owned(),
            Token::RightBrace => "'}'".to_owned(),
            Token::LeftBracket => "'['".to_owned(),
            Token::RightBracket => "']'".to_owned(),
            Token::Comma => "','".to_owned(),
            Token::Dot => "'.'".to_owned(),
            Token::Colon => "':'".to_owned(),
            Token::Semicolon => "';'".to_owned(),
            Token::Plus => "'+'".to_owned(),
            Token::Minus => "'-'".to_owned(),
            Token::Star => "'*'".to_owned(),
            Token::Slash => "'/'".to_owned(),
            Token::Percent => "'%'".to_owned(),
            Token::Arrow => "'->'".to_owned(),
            Token::Equals => "'='".to_owned(),
            Token::Function => "'function'".to_owned(),
            Token::Let => "'let'".to_owned(),
            Token::Mut => "'mut'".to_owned(),
            Token::If => "'if'".to_owned(),
            Token::Else => "'else'".to_owned(),
            Token::I8 => "'i8'".to_owned(),
            Token::I16 => "'i16'".to_owned(),
            Token::I32 => "'i32'".to_owned(),
            Token::I64 => "'i64'".to_owned(),
            Token::Iptr => "'iptr'".to_owned(),
            Token::U8 => "'u8'".to_owned(),
            Token::U16 => "'u16'".to_owned(),
            Token::U32 => "'u32'".to_owned(),
            Token::U64 => "'u64'".to_owned(),
            Token::Uptr => "'uptr'".to_owned(),
            Token::F32 => "'f32'".to_owned(),
            Token::F64 => "'f64'".to_owned(),
            Token::Bool => "'bool'".to_owned(),
            Token::CharType => "'char'".to_owned(),
            Token::StringType => "'string'".to_owned(),
            Token::Error(s) => enclose("'", s.as_str(), "'"),
        }
    }
}

} // verus!
