//! Positions in the input and the errors of a parse.

use vstd::prelude::*;
use crate::token::TokenKind;

verus! {

/// A place in the input. All three numbers count from zero: `offset` counts
/// characters from the start of the text, `line` counts the line breaks
/// before the place, and `column` counts the characters since the last of
/// them.
#[derive(Debug, PartialEq, Eq, Clone, Copy, Structural)]
pub struct Position {
    pub offset: usize,
    pub line: usize,
    pub column: usize,
}

/// What the grammar was ready to read at the point where a parse stopped.
#[derive(Debug, PartialEq, Eq, Clone, Copy, Structural)]
pub enum Expecting {
    /// The first token of a header or body construct, a blank line, or the
    /// end of the input.
    ItemStart,
    /// The end of a construct's last line.
    LineEnd,
    /// The line break between a keyword line and its data line.
    LineBreak,
    Integer,
    QuotedString,
    Tilde,
    Colon,
    /// The keyword `Line` that closes a wire's keyword line.
    LineKeyword,
    /// One of the three wire kinds.
    WireKind,
    /// The name of an encoding.
    EncodingName,
    /// The description that follows a component's `:`.
    Description,
}

/// Why a token that the grammar had room for was still refused.
#[derive(Debug, PartialEq, Eq, Clone, Copy, Structural)]
pub enum SemanticReason {
    /// An integer literal that does not fit in 32 bits.
    IntegerOutOfRange,
    /// A dump version outside 0 to 255.
    VersionOutOfRange,
    /// A word in the place of a wire kind that names none.
    UnknownWireType,
    /// A word in the place of an encoding that names none.
    UnknownEncoding,
    /// A quoted date that the calendar does not hold.
    InvalidDate,
}

/// The first thing that went wrong in a parse, in file order.
#[derive(Debug, PartialEq, Eq, Clone, Copy, Structural)]
pub enum ParseError {
    /// No token starts at `pos`.
    LexError { pos: Position },
    /// The token at `pos` fits no production at this point.
    SyntaxError { pos: Position, found: TokenKind, expected: Expecting },
    /// The token at `pos` is of the right class and still unacceptable.
    SemanticError { pos: Position, reason: SemanticReason },
}

impl Expecting {
    /// The kinds of token that are accepted at such a point, in a fixed
    /// order.
    pub open spec fn token_seq(self) -> Seq<TokenKind> {
        match self {
            Expecting::ItemStart => seq![
                TokenKind::Title,
                TokenKind::Date,
                TokenKind::Version,
                TokenKind::Encoding,
                TokenKind::Connection,
                TokenKind::Wire,
                TokenKind::Text,
                TokenKind::Word,
                TokenKind::LineBreak,
                TokenKind::End,
            ],
            Expecting::LineEnd => seq![TokenKind::LineBreak, TokenKind::End],
            Expecting::LineBreak => seq![TokenKind::LineBreak],
            Expecting::Integer => seq![TokenKind::Integer],
            Expecting::QuotedString => seq![TokenKind::QuotedString],
            Expecting::Tilde => seq![TokenKind::Tilde],
            Expecting::Colon => seq![TokenKind::Colon],
            Expecting::LineKeyword => seq![TokenKind::Line],
            Expecting::WireKind => seq![TokenKind::Wire, TokenKind::Bus, TokenKind::Note],
            Expecting::EncodingName => seq![TokenKind::Utf8],
            Expecting::Description => seq![TokenKind::Word],
        }
    }

    /// Whether a token of kind `kind` is accepted at such a point.
    pub open spec fn accepts(self, kind: TokenKind) -> bool {
        self.token_seq().contains(kind)
    }

    /// The set of token kinds that would have been accepted.
    pub fn tokens(self) -> (out: Vec<TokenKind>)
        ensures
            out@ == self.token_seq(),
    {
        match self {
            Expecting::ItemStart => vec![
                TokenKind::Title,
                TokenKind::Date,
                TokenKind::Version,
                TokenKind::Encoding,
                TokenKind::Connection,
                TokenKind::Wire,
                TokenKind::Text,
                TokenKind::Word,
                TokenKind::LineBreak,
                TokenKind::End,
            ],
            Expecting::LineEnd => vec![TokenKind::LineBreak, TokenKind::End],
            Expecting::LineBreak => vec![TokenKind::LineBreak],
            Expecting::Integer => vec![TokenKind::Integer],
            Expecting::QuotedString => vec![TokenKind::QuotedString],
            Expecting::Tilde => vec![TokenKind::Tilde],
            Expecting::Colon => vec![TokenKind::Colon],
            Expecting::LineKeyword => vec![TokenKind::Line],
            Expecting::WireKind => vec![TokenKind::Wire, TokenKind::Bus, TokenKind::Note],
            Expecting::EncodingName => vec![TokenKind::Utf8],
            Expecting::Description => vec![TokenKind::Word],
        }
    }
}

impl ParseError {
    /// Where the parse stopped.
    pub open spec fn spec_position(self) -> Position {
        match self {
            ParseError::LexError { pos } => pos,
            ParseError::SyntaxError { pos, .. } => pos,
            ParseError::SemanticError { pos, .. } => pos,
        }
    }

    /// Where the parse stopped.
    pub fn position(&self) -> (pos: Position)
        ensures
            pos == self.spec_position(),
    {
        match *self {
            ParseError::LexError { pos } => pos,
            ParseError::SyntaxError { pos, .. } => pos,
            ParseError::SemanticError { pos, .. } => pos,
        }
    }
}

} // verus!
