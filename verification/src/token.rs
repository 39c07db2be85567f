//! The tokens of the save format: their classes, their spelling, and the
//! character classes that the lexer tells apart.

use vstd::prelude::*;

verus! {

/// The reserved words of the format.
#[derive(Debug, PartialEq, Eq, Clone, Copy, Structural)]
pub enum Keyword {
    Title,
    Date,
    Version,
    Encoding,
    /// Spelled `UTF8`.
    Utf8,
    Connection,
    Wire,
    Bus,
    Note,
    Line,
    Text,
}

/// The class of a token, without what it holds.
#[derive(Debug, PartialEq, Eq, Clone, Copy, Structural)]
pub enum TokenKind {
    LineBreak,
    Tilde,
    Colon,
    Integer,
    QuotedString,
    Word,
    Title,
    Date,
    Version,
    Encoding,
    Utf8,
    Connection,
    Wire,
    Bus,
    Note,
    Line,
    Text,
    /// The end of the input.
    End,
    /// A place where no token starts.
    Invalid,
}

/// A token with what it holds.
#[derive(Debug, PartialEq, Eq)]
pub enum Token {
    LineBreak,
    Tilde,
    Colon,
    /// A signed integer literal; `None` where its value does not fit in 32
    /// bits.
    Integer(Option<i32>),
    /// The characters between two double quotes.
    QuotedString(String),
    /// A word that is not reserved.
    Word(String),
    Keyword(Keyword),
    End,
    Invalid,
}

/// What a [`Token`] is, with its text as a sequence of characters.
pub enum TokenView {
    LineBreak,
    Tilde,
    Colon,
    Integer(Option<i32>),
    QuotedString(Seq<char>),
    Word(Seq<char>),
    Keyword(Keyword),
    End,
    Invalid,
}

impl View for Token {
    type V = TokenView;

    open spec fn view(&self) -> TokenView {
        match *self {
            Token::LineBreak => TokenView::LineBreak,
            Token::Tilde => TokenView::Tilde,
            Token::Colon => TokenView::Colon,
            Token::Integer(value) => TokenView::Integer(value),
            Token::QuotedString(content) => TokenView::QuotedString(content@),
            Token::Word(word) => TokenView::Word(word@),
            Token::Keyword(keyword) => TokenView::Keyword(keyword),
            Token::End => TokenView::End,
            Token::Invalid => TokenView::Invalid,
        }
    }
}

/// Blank characters inside a line: space, tab and carriage return.
pub open spec fn is_blank(c: char) -> bool {
    c == ' ' || c == '\t' || c == '\r'
}

pub open spec fn is_digit(c: char) -> bool {
    '0' <= c <= '9'
}

/// A character that may start a word: an ASCII letter or `_`.
pub open spec fn is_word_start(c: char) -> bool {
    ('a' <= c <= 'z') || ('A' <= c <= 'Z') || c == '_'
}

/// A character that may continue a word: a word start or a digit.
pub open spec fn is_word_char(c: char) -> bool {
    is_word_start(c) || is_digit(c)
}

/// The number that a decimal digit stands for.
pub open spec fn digit_value(c: char) -> nat
    recommends
        is_digit(c),
{
    (c as u32 - '0' as u32) as nat
}

impl Keyword {
    /// How the keyword is written in a file.
    pub open spec fn spelling(self) -> Seq<char> {
        match self {
            Keyword::Title => seq!['T', 'i', 't', 'l', 'e'],
            Keyword::Date => seq!['D', 'a', 't', 'e'],
            Keyword::Version => seq!['V', 'e', 'r', 's', 'i', 'o', 'n'],
            Keyword::Encoding => seq!['E', 'n', 'c', 'o', 'd', 'i', 'n', 'g'],
            Keyword::Utf8 => seq!['U', 'T', 'F', '8'],
            Keyword::Connection => seq!['C', 'o', 'n', 'n', 'e', 'c', 't', 'i', 'o', 'n'],
            Keyword::Wire => seq!['W', 'i', 'r', 'e'],
            Keyword::Bus => seq!['B', 'u', 's'],
            Keyword::Note => seq!['N', 'o', 't', 'e'],
            Keyword::Line => seq!['L', 'i', 'n', 'e'],
            Keyword::Text => seq!['T', 'e', 'x', 't'],
        }
    }

    /// The token class of the keyword.
    pub open spec fn spec_kind(self) -> TokenKind {
        match self {
            Keyword::Title => TokenKind::Title,
            Keyword::Date => TokenKind::Date,
            Keyword::Version => TokenKind::Version,
            Keyword::Encoding => TokenKind::Encoding,
            Keyword::Utf8 => TokenKind::Utf8,
            Keyword::Connection => TokenKind::Connection,
            Keyword::Wire => TokenKind::Wire,
            Keyword::Bus => TokenKind::Bus,
            Keyword::Note => TokenKind::Note,
            Keyword::Line => TokenKind::Line,
            Keyword::Text => TokenKind::Text,
        }
    }

    /// The token class of the keyword.
    pub fn kind(self) -> (kind: TokenKind)
        ensures
            kind == self.spec_kind(),
    {
        match self {
            Keyword::Title => TokenKind::Title,
            Keyword::Date => TokenKind::Date,
            Keyword::Version => TokenKind::Version,
            Keyword::Encoding => TokenKind::Encoding,
            Keyword::Utf8 => TokenKind::Utf8,
            Keyword::Connection => TokenKind::Connection,
            Keyword::Wire => TokenKind::Wire,
            Keyword::Bus => TokenKind::Bus,
            Keyword::Note => TokenKind::Note,
            Keyword::Line => TokenKind::Line,
            Keyword::Text => TokenKind::Text,
        }
    }
}

/// The keyword that `word` spells, if it spells one.
pub open spec fn keyword_of(word: Seq<char>) -> Option<Keyword> {
    if word == Keyword::Title.spelling() {
        Some(Keyword::Title)
    } else if word == Keyword::Date.spelling() {
        Some(Keyword::Date)
    } else if word == Keyword::Version.spelling() {
        Some(Keyword::Version)
    } else if word == Keyword::Encoding.spelling() {
        Some(Keyword::Encoding)
    } else if word == Keyword::Utf8.spelling() {
        Some(Keyword::Utf8)
    } else if word == Keyword::Connection.spelling() {
        Some(Keyword::Connection)
    } else if word == Keyword::Wire.spelling() {
        Some(Keyword::Wire)
    } else if word == Keyword::Bus.spelling() {
        Some(Keyword::Bus)
    } else if word == Keyword::Note.spelling() {
        Some(Keyword::Note)
    } else if word == Keyword::Line.spelling() {
        Some(Keyword::Line)
    } else if word == Keyword::Text.spelling() {
        Some(Keyword::Text)
    } else {
        None
    }
}

impl TokenView {
    /// The class of the token.
    pub open spec fn kind(self) -> TokenKind {
        match self {
            TokenView::LineBreak => TokenKind::LineBreak,
            TokenView::Tilde => TokenKind::Tilde,
            TokenView::Colon => TokenKind::Colon,
            TokenView::Integer(_) => TokenKind::Integer,
            TokenView::QuotedString(_) => TokenKind::QuotedString,
            TokenView::Word(_) => TokenKind::Word,
            TokenView::Keyword(keyword) => keyword.spec_kind(),
            TokenView::End => TokenKind::End,
            TokenView::Invalid => TokenKind::Invalid,
        }
    }
}

impl Token {
    /// The class of the token.
    pub fn kind(&self) -> (kind: TokenKind)
        ensures
            kind == self@.kind(),
    {
        match self {
            Token::LineBreak => TokenKind::LineBreak,
            Token::Tilde => TokenKind::Tilde,
            Token::Colon => TokenKind::Colon,
            Token::Integer(_) => TokenKind::Integer,
            Token::QuotedString(_) => TokenKind::QuotedString,
            Token::Word(_) => TokenKind::Word,
            Token::Keyword(keyword) => keyword.kind(),
            Token::End => TokenKind::End,
            Token::Invalid => TokenKind::Invalid,
        }
    }
}

} // verus!
