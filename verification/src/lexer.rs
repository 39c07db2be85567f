//! The lexer: from a place in the text to the token that starts there.
//!
//! [`scan`] says, for every text and every place in it, which token comes
//! next and where it ends; [`next_lexeme`] computes it. Blank characters
//! before a token are skipped, line breaks are tokens of their own.

use vstd::prelude::*;
use crate::error::Position;
use crate::token::{
    digit_value, is_blank, is_digit, is_word_char, is_word_start, keyword_of, Keyword, Token,
    TokenView,
};

verus! {

/// The classes of character of which the lexer reads a run at once. None
/// of them holds the line break.
#[derive(Debug, PartialEq, Eq, Clone, Copy, Structural)]
pub enum CharClass {
    Blank,
    Digit,
    Word,
    /// What may stand between two double quotes: anything but a double
    /// quote and a line break.
    Quoted,
}

impl CharClass {
    pub open spec fn holds(self, c: char) -> bool {
        match self {
            CharClass::Blank => is_blank(c),
            CharClass::Digit => is_digit(c),
            CharClass::Word => is_word_char(c),
            CharClass::Quoted => c != '"' && c != '\n',
        }
    }

    /// Whether `c` belongs to the class.
    pub fn test(self, c: char) -> (b: bool)
        ensures
            b == self.holds(c),
    {
        match self {
            CharClass::Blank => c == ' ' || c == '\t' || c == '\r',
            CharClass::Digit => c >= '0' && c <= '9',
            CharClass::Word => (c >= 'a' && c <= 'z') || (c >= 'A' && c <= 'Z') || c == '_' || (c
                >= '0' && c <= '9'),
            CharClass::Quoted => c != '"' && c != '\n',
        }
    }
}

/// The first place at or after `at` whose character is not of `class`, or
/// the length of the text.
pub open spec fn run_end(text: Seq<char>, at: int, class: CharClass) -> int
    decreases text.len() - at,
{
    if 0 <= at < text.len() && class.holds(text[at]) {
        run_end(text, at + 1, class)
    } else {
        at
    }
}

/// The number that a sequence of decimal digits writes.
pub open spec fn digits_value(digits: Seq<char>) -> nat
    decreases digits.len(),
{
    if digits.len() == 0 {
        0
    } else {
        digits_value(digits.drop_last()) * 10 + digit_value(digits.last())
    }
}

/// The integer token for a sign and a magnitude: it holds the value where
/// that fits in 32 bits.
pub open spec fn integer_token(negative: bool, magnitude: nat) -> TokenView {
    let value: int = if negative {
        -(magnitude as int)
    } else {
        magnitude as int
    };
    if i32::MIN <= value <= i32::MAX {
        TokenView::Integer(Some(value as i32))
    } else {
        TokenView::Integer(None)
    }
}

/// The token for a run of word characters: a keyword where it spells one.
pub open spec fn word_token(word: Seq<char>) -> TokenView {
    match keyword_of(word) {
        Some(keyword) => TokenView::Keyword(keyword),
        None => TokenView::Word(word),
    }
}

/// The token that starts at `start`, where a character that is not blank
/// stands, and the place where it ends. An invalid token ends where it
/// starts.
pub open spec fn token_at(text: Seq<char>, start: int) -> (TokenView, int) {
    let c = text[start];
    if c == '\n' {
        (TokenView::LineBreak, start + 1)
    } else if c == '~' {
        (TokenView::Tilde, start + 1)
    } else if c == ':' {
        (TokenView::Colon, start + 1)
    } else if c == '"' {
        let close = run_end(text, start + 1, CharClass::Quoted);
        if close < text.len() && text[close] == '"' {
            (TokenView::QuotedString(text.subrange(start + 1, close)), close + 1)
        } else {
            (TokenView::Invalid, start)
        }
    } else if is_digit(c) {
        let end = run_end(text, start, CharClass::Digit);
        (integer_token(false, digits_value(text.subrange(start, end))), end)
    } else if c == '-' {
        if start + 1 < text.len() && is_digit(text[start + 1]) {
            let end = run_end(text, start + 1, CharClass::Digit);
            (integer_token(true, digits_value(text.subrange(start + 1, end))), end)
        } else {
            (TokenView::Invalid, start)
        }
    } else if is_word_start(c) {
        let end = run_end(text, start, CharClass::Word);
        (word_token(text.subrange(start, end)), end)
    } else {
        (TokenView::Invalid, start)
    }
}

/// A token with the places where it starts and ends.
pub struct Scan {
    pub token: TokenView,
    pub start: int,
    pub end: int,
}

/// The next token at or after `at`: blanks are skipped, and the end of the
/// text is a token.
pub open spec fn scan(text: Seq<char>, at: int) -> Scan {
    let start = run_end(text, at, CharClass::Blank);
    if start >= text.len() {
        Scan { token: TokenView::End, start: start, end: start }
    } else {
        let (token, end) = token_at(text, start);
        Scan { token: token, start: start, end: end }
    }
}

/// The number of line breaks before `at`.
pub open spec fn line_of(text: Seq<char>, at: int) -> nat
    decreases at,
{
    if at <= 0 {
        0
    } else if text[at - 1] == '\n' {
        line_of(text, at - 1) + 1
    } else {
        line_of(text, at - 1)
    }
}

/// The place where the line that holds `at` starts.
pub open spec fn line_start(text: Seq<char>, at: int) -> int
    decreases at,
{
    if at <= 0 {
        0
    } else if text[at - 1] == '\n' {
        at
    } else {
        line_start(text, at - 1)
    }
}

/// The position of the place `at` in `text`.
pub open spec fn position_at(text: Seq<char>, at: int) -> Position {
    Position {
        offset: at as usize,
        line: line_of(text, at) as usize,
        column: (at - line_start(text, at)) as usize,
    }
}

/// A run starts where it is asked for and ends inside the text; all of it
/// is of the class, and what follows it is not.
pub proof fn lemma_run_end(text: Seq<char>, at: int, class: CharClass)
    requires
        0 <= at <= text.len(),
    ensures
        at <= run_end(text, at, class) <= text.len(),
        forall|j: int| at <= j < run_end(text, at, class) ==> class.holds(#[trigger] text[j]),
        run_end(text, at, class) < text.len() ==> !class.holds(text[run_end(text, at, class)]),
    decreases text.len() - at,
{
    if at < text.len() && class.holds(text[at]) {
        lemma_run_end(text, at + 1, class);
    }
}

/// A token that is neither the end nor invalid takes at least one
/// character; every token ends inside the text.
pub proof fn lemma_scan_advances(text: Seq<char>, at: int)
    requires
        0 <= at <= text.len(),
    ensures
        at <= scan(text, at).start <= scan(text, at).end <= text.len(),
        scan(text, at).token != TokenView::End && scan(text, at).token != TokenView::Invalid
            ==> scan(text, at).start < scan(text, at).end,
        scan(text, at).token == TokenView::End ==> scan(text, at).start == text.len(),
{
    lemma_run_end(text, at, CharClass::Blank);
    let start = run_end(text, at, CharClass::Blank);
    if start < text.len() {
        lemma_run_end(text, start + 1, CharClass::Quoted);
        lemma_run_end(text, start + 1, CharClass::Digit);
        lemma_run_end(text, start + 1, CharClass::Word);
        lemma_run_end(text, start, CharClass::Digit);
        lemma_run_end(text, start, CharClass::Word);
    }
}

/// Between two places with no line break in between, the line and its start
/// stay the same.
pub proof fn lemma_same_line(text: Seq<char>, from: int, to: int)
    requires
        0 <= from <= to <= text.len(),
        forall|j: int| from <= j < to ==> text[j] != '\n',
    ensures
        line_of(text, to) == line_of(text, from),
        line_start(text, to) == line_start(text, from),
    decreases to - from,
{
    if from < to {
        lemma_same_line(text, from, to - 1);
    }
}

/// A line starts at or before each of its places, and a text has no more
/// line breaks before a place than characters.
pub proof fn lemma_line_bounds(text: Seq<char>, at: int)
    requires
        0 <= at,
    ensures
        line_of(text, at) <= at,
        0 <= line_start(text, at) <= at,
    decreases at,
{
    if at > 0 {
        lemma_line_bounds(text, at - 1);
    }
}

/// A token that is no line break holds no line break.
pub proof fn lemma_token_on_one_line(text: Seq<char>, at: int)
    requires
        0 <= at <= text.len(),
        scan(text, at).token != TokenView::LineBreak,
    ensures
        forall|j: int| scan(text, at).start <= j < scan(text, at).end ==> text[j] != '\n',
{
    lemma_run_end(text, at, CharClass::Blank);
    let start = run_end(text, at, CharClass::Blank);
    if start < text.len() {
        lemma_run_end(text, start + 1, CharClass::Quoted);
        lemma_run_end(text, start + 1, CharClass::Digit);
        lemma_run_end(text, start, CharClass::Digit);
        lemma_run_end(text, start, CharClass::Word);
    }
}

/// The token behind a token that is no line break starts on the same line.
pub proof fn lemma_next_token_on_line(text: Seq<char>, at: int)
    requires
        0 <= at <= text.len(),
        scan(text, at).token != TokenView::LineBreak,
    ensures
        position_at(text, scan(text, scan(text, at).end).start).line == position_at(
            text,
            scan(text, at).start,
        ).line,
{
    let first = scan(text, at);
    lemma_scan_advances(text, at);
    lemma_token_on_one_line(text, at);
    lemma_run_end(text, first.end, CharClass::Blank);
    lemma_scan_advances(text, first.end);
    lemma_same_line(text, first.start, scan(text, first.end).start);
}

/// The place after the first `count` tokens at or after `at`.
pub open spec fn place_after(text: Seq<char>, at: int, count: nat) -> int
    decreases count,
{
    if count == 0 {
        at
    } else {
        scan(text, place_after(text, at, (count - 1) as nat)).end
    }
}

/// The first `count` tokens at or after `at`, in order. Behind the end of
/// the text every token is the end.
pub open spec fn first_tokens(text: Seq<char>, at: int, count: nat) -> Seq<TokenView> {
    Seq::new(count, |k: int| scan(text, place_after(text, at, k as nat)).token)
}

/// `String::push` appends one character to the end of the string.
pub assume_specification[ String::push ](s: &mut String, c: char)
    ensures
        final(s)@ == old(s)@.push(c),
;

/// A token and the position of its first character.
#[derive(Debug, PartialEq, Eq)]
pub struct Lexeme {
    pub token: Token,
    pub pos: Position,
}

/// A place in a text between two tokens, with the line that holds it.
#[derive(Debug, PartialEq, Eq, Clone, Copy, Structural)]
pub struct Cursor {
    pub index: usize,
    pub line: usize,
    pub line_start: usize,
}

impl Cursor {
    /// The cursor is a place of `text` and knows its line.
    pub open spec fn wf(self, text: Seq<char>) -> bool {
        &&& self.index <= text.len()
        &&& self.line == line_of(text, self.index as int)
        &&& self.line_start == line_start(text, self.index as int)
    }

    /// The cursor at the start of any text.
    pub fn start() -> (cur: Cursor)
        ensures
            cur.index == 0,
            forall|text: Seq<char>| cur.wf(text),
    {
        Cursor { index: 0, line: 0, line_start: 0 }
    }
}

/// The end of the run of `class` that starts at `from`.
pub fn scan_run(chars: &[char], from: usize, class: CharClass) -> (end: usize)
    requires
        from <= chars@.len(),
    ensures
        end == run_end(chars@, from as int, class),
        from <= end <= chars@.len(),
{
    let mut k: usize = from;
    while k < chars.len() && class.test(chars[k])
        invariant
            from <= k <= chars@.len(),
            run_end(chars@, from as int, class) == run_end(chars@, k as int, class),
        decreases chars@.len() - k,
    {
        k += 1;
    }
    k
}

/// The characters of `chars` from `from` up to `to`, as a string.
pub fn collect(chars: &[char], from: usize, to: usize) -> (out: String)
    requires
        from <= to <= chars@.len(),
    ensures
        out@ == chars@.subrange(from as int, to as int),
{
    let mut out = String::new();
    let mut k: usize = from;
    while k < to
        invariant
            from <= k <= to <= chars@.len(),
            out@ == chars@.subrange(from as int, k as int),
        decreases to - k,
    {
        out.push(chars[k]);
        k += 1;
    }
    out
}

/// The integer token whose digits stand from `from` up to `to`.
pub fn read_integer(chars: &[char], from: usize, to: usize, negative: bool) -> (token: Token)
    requires
        from <= to <= chars@.len(),
        forall|j: int| from <= j < to ==> is_digit(#[trigger] chars@[j]),
    ensures
        token@ == integer_token(negative, digits_value(chars@.subrange(from as int, to as int))),
{
    let limit: u64 = 0x8000_0000;
    let mut magnitude: u64 = 0;
    let mut too_large: bool = false;
    let mut k: usize = from;
    while k < to
        invariant
            from <= k <= to <= chars@.len(),
            limit == 0x8000_0000,
            forall|j: int| from <= j < to ==> is_digit(#[trigger] chars@[j]),
            !too_large ==> magnitude == digits_value(chars@.subrange(from as int, k as int)),
            !too_large ==> magnitude <= limit,
            too_large ==> digits_value(chars@.subrange(from as int, k as int)) > limit,
        decreases to - k,
    {
        let c = chars[k];
        proof {
            let longer = chars@.subrange(from as int, k + 1);
            assert(longer.drop_last() =~= chars@.subrange(from as int, k as int));
            assert(longer.last() == c);
            assert(is_digit(chars@[k as int]));
        }
        if !too_large {
            let digit: u64 = (c as u32 - '0' as u32) as u64;
            magnitude = magnitude * 10 + digit;
            if magnitude > limit {
                too_large = true;
            }
        }
        k += 1;
    }
    if too_large {
        Token::Integer(None)
    } else if negative {
        let value: i64 = -(magnitude as i64);
        Token::Integer(Some(value as i32))
    } else if magnitude < limit {
        Token::Integer(Some(magnitude as i32))
    } else {
        Token::Integer(None)
    }
}

/// Whether the characters from `from` up to `to` are exactly `spelling`.
pub fn spelled<const N: usize>(chars: &[char], from: usize, to: usize, spelling: &[char; N]) -> (b:
    bool)
    requires
        from <= to <= chars@.len(),
    ensures
        b == (chars@.subrange(from as int, to as int) == spelling@),
{
    assert(spelling@.len() == N);
    if to - from != N {
        return false;
    }
    let mut k: usize = 0;
    while k < N
        invariant
            k <= N,
            to - from == N,
            to <= chars@.len(),
            spelling@.len() == N,
            forall|j: int| 0 <= j < k ==> chars@[from + j] == spelling@[j],
        decreases N - k,
    {
        if chars[from + k] != spelling[k] {
            assert(chars@.subrange(from as int, to as int)[k as int] != spelling@[k as int]);
            return false;
        }
        k += 1;
    }
    assert(chars@.subrange(from as int, to as int) =~= spelling@);
    true
}

impl Keyword {
    /// Whether the characters from `from` up to `to` spell this keyword.
    pub fn is_spelled(self, chars: &[char], from: usize, to: usize) -> (b: bool)
        requires
            from <= to <= chars@.len(),
        ensures
            b == (chars@.subrange(from as int, to as int) == self.spelling()),
    {
        match self {
            Keyword::Title => {
                let lit: [char; 5] = ['T', 'i', 't', 'l', 'e'];
                assert(lit@ =~= self.spelling());
                spelled(chars, from, to, &lit)
            },
            Keyword::Date => {
                let lit: [char; 4] = ['D', 'a', 't', 'e'];
                assert(lit@ =~= self.spelling());
                spelled(chars, from, to, &lit)
            },
            Keyword::Version => {
                let lit: [char; 7] = ['V', 'e', 'r', 's', 'i', 'o', 'n'];
                assert(lit@ =~= self.spelling());
                spelled(chars, from, to, &lit)
            },
            Keyword::Encoding => {
                let lit: [char; 8] = ['E', 'n', 'c', 'o', 'd', 'i', 'n', 'g'];
                assert(lit@ =~= self.spelling());
                spelled(chars, from, to, &lit)
            },
            Keyword::Utf8 => {
                let lit: [char; 4] = ['U', 'T', 'F', '8'];
                assert(lit@ =~= self.spelling());
                spelled(chars, from, to, &lit)
            },
            Keyword::Connection => {
                let lit: [char; 10] = ['C', 'o', 'n', 'n', 'e', 'c', 't', 'i', 'o', 'n'];
                assert(lit@ =~= self.spelling());
                spelled(chars, from, to, &lit)
            },
            Keyword::Wire => {
                let lit: [char; 4] = ['W', 'i', 'r', 'e'];
                assert(lit@ =~= self.spelling());
                spelled(chars, from, to, &lit)
            },
            Keyword::Bus => {
                let lit: [char; 3] = ['B', 'u', 's'];
                assert(lit@ =~= self.spelling());
                spelled(chars, from, to, &lit)
            },
            Keyword::Note => {
                let lit: [char; 4] = ['N', 'o', 't', 'e'];
                assert(lit@ =~= self.spelling());
                spelled(chars, from, to, &lit)
            },
            Keyword::Line => {
                let lit: [char; 4] = ['L', 'i', 'n', 'e'];
                assert(lit@ =~= self.spelling());
                spelled(chars, from, to, &lit)
            },
            Keyword::Text => {
                let lit: [char; 4] = ['T', 'e', 'x', 't'];
                assert(lit@ =~= self.spelling());
                spelled(chars, from, to, &lit)
            },
        }
    }
}

/// The token for the word that stands from `from` up to `to`.
pub fn read_word(chars: &[char], from: usize, to: usize) -> (token: Token)
    requires
        from <= to <= chars@.len(),
    ensures
        token@ == word_token(chars@.subrange(from as int, to as int)),
{
    if Keyword::Title.is_spelled(chars, from, to) {
        Token::Keyword(Keyword::Title)
    } else if Keyword::Date.is_spelled(chars, from, to) {
        Token::Keyword(Keyword::Date)
    } else if Keyword::Version.is_spelled(chars, from, to) {
        Token::Keyword(Keyword::Version)
    } else if Keyword::Encoding.is_spelled(chars, from, to) {
        Token::Keyword(Keyword::Encoding)
    } else if Keyword::Utf8.is_spelled(chars, from, to) {
        Token::Keyword(Keyword::Utf8)
    } else if Keyword::Connection.is_spelled(chars, from, to) {
        Token::Keyword(Keyword::Connection)
    } else if Keyword::Wire.is_spelled(chars, from, to) {
        Token::Keyword(Keyword::Wire)
    } else if Keyword::Bus.is_spelled(chars, from, to) {
        Token::Keyword(Keyword::Bus)
    } else if Keyword::Note.is_spelled(chars, from, to) {
        Token::Keyword(Keyword::Note)
    } else if Keyword::Line.is_spelled(chars, from, to) {
        Token::Keyword(Keyword::Line)
    } else if Keyword::Text.is_spelled(chars, from, to) {
        Token::Keyword(Keyword::Text)
    } else {
        Token::Word(collect(chars, from, to))
    }
}

/// Reads the next token at or after the cursor and moves the cursor to its
/// end. At an invalid token the cursor stays at its start.
pub fn next_lexeme(chars: &[char], cur: Cursor) -> (out: (Lexeme, Cursor))
    requires
        cur.wf(chars@),
    ensures
        out.0.token@ == scan(chars@, cur.index as int).token,
        out.0.pos == position_at(chars@, scan(chars@, cur.index as int).start),
        out.1.index == scan(chars@, cur.index as int).end,
        out.1.wf(chars@),
{
    let start = scan_run(chars, cur.index, CharClass::Blank);
    proof {
        lemma_run_end(chars@, cur.index as int, CharClass::Blank);
        lemma_same_line(chars@, cur.index as int, start as int);
        lemma_line_bounds(chars@, start as int);
        lemma_scan_advances(chars@, cur.index as int);
    }
    let pos = Position { offset: start, line: cur.line, column: start - cur.line_start };
    let here = Cursor { index: start, line: cur.line, line_start: cur.line_start };
    if start >= chars.len() {
        return (Lexeme { token: Token::End, pos: pos }, here);
    }
    let c = chars[start];
    if c == '\n' {
        let next = Cursor { index: start + 1, line: cur.line + 1, line_start: start + 1 };
        (Lexeme { token: Token::LineBreak, pos: pos }, next)
    } else if c == '~' {
        proof {
            lemma_same_line(chars@, start as int, start + 1);
        }
        (Lexeme { token: Token::Tilde, pos: pos }, Cursor { index: start + 1, ..here })
    } else if c == ':' {
        proof {
            lemma_same_line(chars@, start as int, start + 1);
        }
        (Lexeme { token: Token::Colon, pos: pos }, Cursor { index: start + 1, ..here })
    } else if c == '"' {
        let close = scan_run(chars, start + 1, CharClass::Quoted);
        if close < chars.len() && chars[close] == '"' {
            proof {
                lemma_run_end(chars@, start + 1, CharClass::Quoted);
                lemma_same_line(chars@, start as int, close + 1);
            }
            let content = collect(chars, start + 1, close);
            (
                Lexeme { token: Token::QuotedString(content), pos: pos },
                Cursor { index: close + 1, ..here },
            )
        } else {
            (Lexeme { token: Token::Invalid, pos: pos }, here)
        }
    } else if c >= '0' && c <= '9' {
        let end = scan_run(chars, start, CharClass::Digit);
        proof {
            lemma_run_end(chars@, start as int, CharClass::Digit);
            lemma_same_line(chars@, start as int, end as int);
        }
        let token = read_integer(chars, start, end, false);
        (Lexeme { token: token, pos: pos }, Cursor { index: end, ..here })
    } else if c == '-' {
        if start + 1 < chars.len() && CharClass::Digit.test(chars[start + 1]) {
            let end = scan_run(chars, start + 1, CharClass::Digit);
            proof {
                lemma_run_end(chars@, start + 1, CharClass::Digit);
                lemma_same_line(chars@, start as int, end as int);
            }
            let token = read_integer(chars, start + 1, end, true);
            (Lexeme { token: token, pos: pos }, Cursor { index: end, ..here })
        } else {
            (Lexeme { token: Token::Invalid, pos: pos }, here)
        }
    } else if (c >= 'a' && c <= 'z') || (c >= 'A' && c <= 'Z') || c == '_' {
        let end = scan_run(chars, start, CharClass::Word);
        proof {
            lemma_run_end(chars@, start as int, CharClass::Word);
            lemma_same_line(chars@, start as int, end as int);
        }
        let token = read_word(chars, start, end);
        (Lexeme { token: token, pos: pos }, Cursor { index: end, ..here })
    } else {
        (Lexeme { token: Token::Invalid, pos: pos }, here)
    }
}

} // verus!
