//! A parser for the line-oriented save files of a schematic-capture tool.
//!
//! [`parse_kicad_str`] takes the whole content of a save file and returns a
//! [`KiCadSchema`], or the first [`ParseError`] in file order. Nothing is
//! read from disk and nothing is kept between two calls.
//!
//! # The format
//!
//! A file is a sequence of constructs, each starting on a line of its own;
//! blank lines between them are passed over. Headers and body constructs may
//! be mixed; they are collected apart, each kind in file order.
//!
//! ```text
//! Encoding UTF8
//! Version 4
//! Title "MySchema"
//! Date "2020-02-29"
//! Connection ~ 6125 1400
//! Wire Wire Line
//!     10500 4600 10000 4600
//! Text 7350 7500 0 50
//!     "a label"
//! Device:R_Small
//!     1200 3400
//! ```
//!
//! Blanks (space, tab, carriage return) separate tokens and mean nothing
//! else; a line break is a token. Integers are decimal, with an optional
//! `-`, and must fit in 32 bits. A quoted string holds any characters but
//! the double quote and the line break. Words are made of ASCII letters,
//! digits and `_`, and do not start with a digit; the words of the format
//! itself are reserved.
//!
//! # What is proved
//!
//! [`grammar::parse_text`] defines what every text means. The parser is
//! proved to return exactly that, for every input, without panicking and
//! without arithmetic overflow. [`laws`] holds general facts that follow
//! from the definition. Two things are believed and not proved: that
//! `String::push` appends a character, and what `chrono` makes of a date,
//! which the contracts only name ([`date::chrono_date`]).

use vstd::prelude::*;

pub mod ast;
pub mod date;
pub mod error;
pub mod grammar;
pub mod laws;
pub mod lexer;
pub mod token;
pub mod writing;

pub use ast::{
    Component, ComponentView, Connection, Coords, EncodeKind, HeaderKind, HeaderView,
    KiCadSchema, NodeView, SchemaNode, SchemaView, Text, TextView, Wire, WireType,
};
pub use date::CalendarDate;
pub use error::{Expecting, ParseError, Position, SemanticReason};
pub use grammar::{outcome_view, parse_chars, parse_text};
pub use lexer::{Cursor, Lexeme};
pub use token::{Keyword, Token, TokenKind, TokenView};

verus! {

/// The characters of `text`, in order.
pub fn chars_of(text: &str) -> (out: Vec<char>)
    ensures
        out@ == text@,
{
    let mut out: Vec<char> = Vec::new();
    for c in it: text.chars()
        invariant
            it.seq() == text@,
            out@ == it.seq().take(it.index()),
    {
        out.push(c);
    }
    out
}

/// Parses the whole content of a save file.
///
/// Returns the schema that the grammar reads in `input`, with the headers
/// and the body each in file order, or the first error in file order. No
/// part of a schema is returned with an error.
pub fn parse_kicad_str(input: &str) -> (out: Result<KiCadSchema, ParseError>)
    ensures
        outcome_view(out) == parse_text(input@),
{
    let chars = chars_of(input);
    parse_chars(chars.as_slice())
}

} // verus!
