//! The grammar of the save format.
//!
//! The first half of this file says what a text means: for each production a
//! function from the text and a place in it to the value read there and the
//! place after it, or to the error. The second half computes the same, token
//! by token, and is proved to agree.
//!
//! ```text
//! file       := { line-break } [ item { line-break { line-break } item } ] { line-break }
//! item       := title | date | version | encoding
//!             | connection | wire | text | component
//! title      := "Title" string
//! date       := "Date" string
//! version    := "Version" integer
//! encoding   := "Encoding" "UTF8"
//! connection := "Connection" "~" integer integer
//! wire       := "Wire" ( "Wire" | "Bus" | "Note" ) "Line" line-break
//!               integer integer integer integer
//! text       := "Text" integer integer integer integer line-break string
//! component  := word ":" word line-break integer integer
//! ```

use vstd::prelude::*;
use crate::ast::{
    Component, ComponentView, Connection, Coords, EncodeKind, HeaderKind, HeaderView,
    KiCadSchema, NodeView, SchemaNode, SchemaView, Text, TextView, Wire, WireType,
};
use crate::date::{date_of, CalendarDate};
use crate::error::{Expecting, ParseError, Position, SemanticReason};
use crate::lexer::{
    lemma_line_bounds, lemma_run_end, lemma_same_line, lemma_scan_advances, next_lexeme,
    position_at, scan, scan_run, CharClass, Cursor, Lexeme,
};
use crate::token::{Keyword, Token, TokenKind, TokenView};

verus! {

/// The position of the next token at or after `at`.
pub open spec fn pos_at(text: Seq<char>, at: int) -> Position {
    position_at(text, scan(text, at).start)
}

/// The error for a token that stands where the grammar was `expected`
/// something else: a lexical error where no token starts, a syntax error
/// otherwise.
pub open spec fn refuse(token: TokenView, pos: Position, expected: Expecting) -> ParseError {
    if token is Invalid {
        ParseError::LexError { pos: pos }
    } else {
        ParseError::SyntaxError { pos: pos, found: token.kind(), expected: expected }
    }
}

/// The error for the next token at or after `at`, refused.
pub open spec fn refusal(text: Seq<char>, at: int, expected: Expecting) -> ParseError {
    refuse(scan(text, at).token, pos_at(text, at), expected)
}

/// A token without content, of kind `kind`, is read at `at`.
pub open spec fn expect_kind(text: Seq<char>, at: int, kind: TokenKind, expected: Expecting)
    -> Result<int, ParseError> {
    if scan(text, at).token.kind() == kind {
        Ok(scan(text, at).end)
    } else {
        Err(refusal(text, at, expected))
    }
}

/// An integer that fits in 32 bits is read at `at`.
pub open spec fn expect_integer(text: Seq<char>, at: int) -> Result<(i32, int), ParseError> {
    match scan(text, at).token {
        TokenView::Integer(Some(value)) => Ok((value, scan(text, at).end)),
        TokenView::Integer(None) => Err(
            ParseError::SemanticError {
                pos: pos_at(text, at),
                reason: SemanticReason::IntegerOutOfRange,
            },
        ),
        _ => Err(refusal(text, at, Expecting::Integer)),
    }
}

/// A quoted string is read at `at`.
pub open spec fn expect_string(text: Seq<char>, at: int) -> Result<(Seq<char>, int), ParseError> {
    match scan(text, at).token {
        TokenView::QuotedString(content) => Ok((content, scan(text, at).end)),
        _ => Err(refusal(text, at, Expecting::QuotedString)),
    }
}

/// Two integers are read at `at`: a pair of co-ordinates.
pub open spec fn expect_coords(text: Seq<char>, at: int) -> Result<(Coords, int), ParseError> {
    match expect_integer(text, at) {
        Err(error) => Err(error),
        Ok((x, after_x)) => match expect_integer(text, after_x) {
            Err(error) => Err(error),
            Ok((y, after_y)) => Ok((Coords { x: x, y: y }, after_y)),
        },
    }
}

/// The kind of wire that a token names, where it names one.
pub open spec fn wire_type_of(token: TokenView) -> Option<WireType> {
    match token {
        TokenView::Keyword(Keyword::Wire) => Some(WireType::Wire),
        TokenView::Keyword(Keyword::Bus) => Some(WireType::Bus),
        TokenView::Keyword(Keyword::Note) => Some(WireType::Note),
        _ => None,
    }
}

/// Whether a token is written like a word, reserved or not.
pub open spec fn is_wordlike(token: TokenView) -> bool {
    token is Word || token is Keyword
}

/// A wire kind is read at `at`. Another word in its place is a semantic
/// error.
pub open spec fn expect_wire_type(text: Seq<char>, at: int) -> Result<(WireType, int), ParseError> {
    match wire_type_of(scan(text, at).token) {
        Some(ty) => Ok((ty, scan(text, at).end)),
        None => if is_wordlike(scan(text, at).token) {
            Err(
                ParseError::SemanticError {
                    pos: pos_at(text, at),
                    reason: SemanticReason::UnknownWireType,
                },
            )
        } else {
            Err(refusal(text, at, Expecting::WireKind))
        },
    }
}

/// What follows the keyword `Title`.
pub open spec fn title_rest(text: Seq<char>, at: int) -> Result<(HeaderView, int), ParseError> {
    match expect_string(text, at) {
        Err(error) => Err(error),
        Ok((name, after)) => Ok((HeaderView::DumpName(name), after)),
    }
}

/// The header for a quoted date at `pos`, given what the calendar made of
/// it.
pub open spec fn date_header(parsed: Option<CalendarDate>, pos: Position) -> Result<
    HeaderView,
    ParseError,
> {
    match parsed {
        Some(date) => Ok(HeaderView::LastUpdated(date)),
        None => Err(ParseError::SemanticError { pos: pos, reason: SemanticReason::InvalidDate }),
    }
}

/// What follows the keyword `Date`.
pub open spec fn date_rest(text: Seq<char>, at: int) -> Result<(HeaderView, int), ParseError> {
    match expect_string(text, at) {
        Err(error) => Err(error),
        Ok((written, after)) => match date_header(date_of(written), pos_at(text, at)) {
            Err(error) => Err(error),
            Ok(header) => Ok((header, after)),
        },
    }
}

/// What follows the keyword `Version`.
pub open spec fn version_rest(text: Seq<char>, at: int) -> Result<(HeaderView, int), ParseError> {
    match expect_integer(text, at) {
        Err(error) => Err(error),
        Ok((version, after)) => if 0 <= version <= 255 {
            Ok((HeaderView::DumpVersion(version as u8), after))
        } else {
            Err(
                ParseError::SemanticError {
                    pos: pos_at(text, at),
                    reason: SemanticReason::VersionOutOfRange,
                },
            )
        },
    }
}

/// What follows the keyword `Encoding`. Another word in the place of the
/// encoding's name is a semantic error.
pub open spec fn encoding_rest(text: Seq<char>, at: int) -> Result<(HeaderView, int), ParseError> {
    if scan(text, at).token == TokenView::Keyword(Keyword::Utf8) {
        Ok((HeaderView::Encoding(EncodeKind::UTF8), scan(text, at).end))
    } else if is_wordlike(scan(text, at).token) {
        Err(
            ParseError::SemanticError {
                pos: pos_at(text, at),
                reason: SemanticReason::UnknownEncoding,
            },
        )
    } else {
        Err(refusal(text, at, Expecting::EncodingName))
    }
}

/// What follows the keyword `Connection`.
pub open spec fn connection_rest(text: Seq<char>, at: int) -> Result<(Connection, int), ParseError> {
    match expect_kind(text, at, TokenKind::Tilde, Expecting::Tilde) {
        Err(error) => Err(error),
        Ok(after_tilde) => match expect_coords(text, after_tilde) {
            Err(error) => Err(error),
            Ok((pos, after)) => Ok((Connection { pos: pos }, after)),
        },
    }
}

/// What follows the keyword `Wire` at the start of a line: the kind, the
/// keyword `Line`, and on the next line the two ends.
pub open spec fn wire_rest(text: Seq<char>, at: int) -> Result<(Wire, int), ParseError> {
    match expect_wire_type(text, at) {
        Err(error) => Err(error),
        Ok((ty, after_ty)) => match expect_kind(
            text,
            after_ty,
            TokenKind::Line,
            Expecting::LineKeyword,
        ) {
            Err(error) => Err(error),
            Ok(after_line) => match expect_kind(
                text,
                after_line,
                TokenKind::LineBreak,
                Expecting::LineBreak,
            ) {
                Err(error) => Err(error),
                Ok(after_break) => match expect_coords(text, after_break) {
                    Err(error) => Err(error),
                    Ok((start, after_start)) => match expect_coords(text, after_start) {
                        Err(error) => Err(error),
                        Ok((end, after)) => Ok((Wire { ty: ty, start: start, end: end }, after)),
                    },
                },
            },
        },
    }
}

/// What follows the keyword `Text`: position, orientation and dimension,
/// and on the next line the quoted content.
pub open spec fn text_rest(text: Seq<char>, at: int) -> Result<(TextView, int), ParseError> {
    match expect_coords(text, at) {
        Err(error) => Err(error),
        Ok((pos, after_pos)) => match expect_coords(text, after_pos) {
            Err(error) => Err(error),
            Ok((shape, after_shape)) => match expect_kind(
                text,
                after_shape,
                TokenKind::LineBreak,
                Expecting::LineBreak,
            ) {
                Err(error) => Err(error),
                Ok(after_break) => match expect_string(text, after_break) {
                    Err(error) => Err(error),
                    Ok((content, after)) => Ok(
                        (
                            TextView {
                                pos: pos,
                                orientation: shape.x,
                                dimension: shape.y,
                                content: content,
                            },
                            after,
                        ),
                    ),
                },
            },
        },
    }
}

/// What follows the name of a component: the colon, the description, and on
/// the next line the position.
pub open spec fn component_rest(text: Seq<char>, name: Seq<char>, at: int) -> Result<
    (ComponentView, int),
    ParseError,
> {
    match expect_kind(text, at, TokenKind::Colon, Expecting::Colon) {
        Err(error) => Err(error),
        Ok(after_colon) => match scan(text, after_colon).token {
            TokenView::Word(description) => match expect_kind(
                text,
                scan(text, after_colon).end,
                TokenKind::LineBreak,
                Expecting::LineBreak,
            ) {
                Err(error) => Err(error),
                Ok(after_break) => match expect_coords(text, after_break) {
                    Err(error) => Err(error),
                    Ok((pos, after)) => Ok(
                        (ComponentView { name: (name, description), pos: pos }, after),
                    ),
                },
            },
            _ => Err(refusal(text, after_colon, Expecting::Description)),
        },
    }
}

/// One construct of a file: a header or a node of the body.
pub enum ItemView {
    Header(HeaderView),
    Node(NodeView),
}

/// Lifts what a header production read to an item.
pub open spec fn as_header(read: Result<(HeaderView, int), ParseError>) -> Result<
    (ItemView, int),
    ParseError,
> {
    match read {
        Err(error) => Err(error),
        Ok((header, after)) => Ok((ItemView::Header(header), after)),
    }
}

/// The construct whose first token is the next one at or after `at`, and
/// the place after its last token. A first token that starts no construct
/// is refused.
pub open spec fn item_at(text: Seq<char>, at: int) -> Result<(ItemView, int), ParseError> {
    let rest = scan(text, at).end;
    match scan(text, at).token {
        TokenView::Keyword(Keyword::Title) => as_header(title_rest(text, rest)),
        TokenView::Keyword(Keyword::Date) => as_header(date_rest(text, rest)),
        TokenView::Keyword(Keyword::Version) => as_header(version_rest(text, rest)),
        TokenView::Keyword(Keyword::Encoding) => as_header(encoding_rest(text, rest)),
        TokenView::Keyword(Keyword::Connection) => match connection_rest(text, rest) {
            Err(error) => Err(error),
            Ok((connection, after)) => Ok((ItemView::Node(NodeView::Connection(connection)), after)),
        },
        TokenView::Keyword(Keyword::Wire) => match wire_rest(text, rest) {
            Err(error) => Err(error),
            Ok((wire, after)) => Ok((ItemView::Node(NodeView::Wire(wire)), after)),
        },
        TokenView::Keyword(Keyword::Text) => match text_rest(text, rest) {
            Err(error) => Err(error),
            Ok((label, after)) => Ok((ItemView::Node(NodeView::Text(label)), after)),
        },
        TokenView::Word(name) => match component_rest(text, name, rest) {
            Err(error) => Err(error),
            Ok((component, after)) => Ok((ItemView::Node(NodeView::Component(component)), after)),
        },
        _ => Err(refusal(text, at, Expecting::ItemStart)),
    }
}

impl SchemaView {
    /// This schema with one more construct: a header at the end of
    /// `headers`, or a node at the end of `body`.
    pub open spec fn with_item(self, item: ItemView) -> SchemaView {
        match item {
            ItemView::Header(header) => self.with_header(header),
            ItemView::Node(node) => self.with_node(node),
        }
    }

    /// This schema with what a step read, if it read a construct.
    pub open spec fn with_read(self, read: Option<ItemView>) -> SchemaView {
        match read {
            Some(item) => self.with_item(item),
            None => self,
        }
    }
}

/// A pair of co-ordinates ends inside the text.
pub proof fn lemma_coords_bounds(text: Seq<char>, at: int)
    requires
        0 <= at <= text.len(),
    ensures
        expect_coords(text, at) matches Ok((_, after)) ==> at < after <= text.len(),
{
    lemma_scan_advances(text, at);
    if let Ok((_, after_x)) = expect_integer(text, at) {
        lemma_scan_advances(text, after_x);
    }
}

/// A construct takes at least one character and ends inside the text.
pub proof fn lemma_item_bounds(text: Seq<char>, at: int)
    requires
        0 <= at <= text.len(),
    ensures
        item_at(text, at) matches Ok((_, after)) ==> at < after <= text.len(),
{
    lemma_scan_advances(text, at);
    let rest = scan(text, at).end;
    if item_at(text, at) is Ok {
        lemma_scan_advances(text, rest);
        let second = scan(text, rest).end;
        lemma_coords_bounds(text, rest);
        lemma_coords_bounds(text, second);
        match scan(text, at).token {
            TokenView::Keyword(Keyword::Wire) => {
                lemma_scan_advances(text, second);
                let after_line = scan(text, second).end;
                lemma_scan_advances(text, after_line);
                let after_break = scan(text, after_line).end;
                lemma_coords_bounds(text, after_break);
                lemma_coords_bounds(text, expect_coords(text, after_break).unwrap().1);
            },
            TokenView::Keyword(Keyword::Text) => {
                let after_pos = expect_coords(text, rest).unwrap().1;
                lemma_coords_bounds(text, after_pos);
                let after_shape = expect_coords(text, after_pos).unwrap().1;
                lemma_scan_advances(text, after_shape);
                lemma_scan_advances(text, scan(text, after_shape).end);
            },
            TokenView::Word(_) => {
                lemma_scan_advances(text, second);
                let after_word = scan(text, second).end;
                lemma_scan_advances(text, after_word);
                lemma_coords_bounds(text, scan(text, after_word).end);
            },
            _ => {},
        }
    }
}

/// What one step of a parse yields.
pub enum StepView {
    /// The text ends, behind the construct if one was read.
    Stop(Option<ItemView>),
    /// A line was read, blank or with its construct, and the parse goes on
    /// at the place behind its line break.
    Go(Option<ItemView>, int),
    /// The parse ends with an error.
    Fail(ParseError),
}

/// One step of a parse from the start of a line: the end of the text, a
/// blank line, or a construct, which a line break or the end of the text
/// must follow.
#[verifier::opaque]
pub open spec fn step_at(text: Seq<char>, at: int) -> StepView {
    match scan(text, at).token {
        TokenView::End => StepView::Stop(None),
        TokenView::LineBreak => StepView::Go(None, scan(text, at).end),
        _ => match item_at(text, at) {
            Err(error) => StepView::Fail(error),
            Ok((item, after)) => match scan(text, after).token {
                TokenView::End => StepView::Stop(Some(item)),
                TokenView::LineBreak => StepView::Go(Some(item), scan(text, after).end),
                _ => StepView::Fail(refusal(text, after, Expecting::LineEnd)),
            },
        },
    }
}

/// A step that goes on has read at least one character and stays inside
/// the text.
pub proof fn lemma_step_bounds(text: Seq<char>, at: int)
    requires
        0 <= at <= text.len(),
    ensures
        step_at(text, at) matches StepView::Go(_, next) ==> at < next <= text.len(),
{
    reveal(step_at);
    lemma_scan_advances(text, at);
    lemma_item_bounds(text, at);
    if let Ok((_, after)) = item_at(text, at) {
        lemma_scan_advances(text, after);
    }
}

/// What the text means from the start of a line on, given the schema read
/// so far: step by step each construct is added to the schema, and the
/// first error ends the parse.
#[verifier::opaque]
pub open spec fn parse_from(text: Seq<char>, at: int, schema: SchemaView) -> Result<
    SchemaView,
    ParseError,
>
    decreases text.len() - at,
    when 0 <= at <= text.len()
{
    match step_at(text, at) {
        StepView::Stop(read) => Ok(schema.with_read(read)),
        StepView::Go(read, next) => {
            proof {
                lemma_step_bounds(text, at);
            }
            parse_from(text, next, schema.with_read(read))
        },
        StepView::Fail(error) => Err(error),
    }
}

/// The meaning of a text from a place on is fixed by the step at that
/// place, and by the meaning from the next place on where the step goes on.
pub proof fn lemma_parse_from(text: Seq<char>, at: int, schema: SchemaView)
    requires
        0 <= at <= text.len(),
    ensures
        parse_from(text, at, schema) == match step_at(text, at) {
            StepView::Stop(read) => Ok::<SchemaView, ParseError>(schema.with_read(read)),
            StepView::Go(read, next) => parse_from(text, next, schema.with_read(read)),
            StepView::Fail(error) => Err::<SchemaView, ParseError>(error),
        },
{
    reveal(parse_from);
    lemma_step_bounds(text, at);
}

/// What a text means: its schema, or the first error in file order.
pub open spec fn parse_text(text: Seq<char>) -> Result<SchemaView, ParseError> {
    parse_from(text, 0, SchemaView::empty())
}

/// One construct of a file: a header or a node of the body.
#[derive(Debug, PartialEq, Eq)]
pub enum Item {
    Header(HeaderKind),
    Node(SchemaNode),
}

impl View for Item {
    type V = ItemView;

    open spec fn view(&self) -> ItemView {
        match *self {
            Item::Header(header) => ItemView::Header(header@),
            Item::Node(node) => ItemView::Node(node@),
        }
    }
}

/// What a reading function returned is what the grammar reads in `text`:
/// the same value and a cursor at the place after it, or the same error.
pub open spec fn reads<T>(
    out: Result<(T, Cursor), ParseError>,
    text: Seq<char>,
    model: Result<(T, int), ParseError>,
) -> bool {
    match out {
        Ok((value, next)) => model == Ok::<(T, int), ParseError>((value, next.index as int))
            && next.wf(text),
        Err(error) => model == Err::<(T, int), ParseError>(error),
    }
}

/// As [`reads`], for a value that owns text: the grammar gives its view.
pub open spec fn reads_view<T: View>(
    out: Result<(T, Cursor), ParseError>,
    text: Seq<char>,
    model: Result<(T::V, int), ParseError>,
) -> bool {
    match out {
        Ok((value, next)) => model == Ok::<(T::V, int), ParseError>((value@, next.index as int))
            && next.wf(text),
        Err(error) => model == Err::<(T::V, int), ParseError>(error),
    }
}

/// The error for a token that stands where something else was expected.
pub fn refuse_lexeme(lexeme: &Lexeme, expected: Expecting) -> (error: ParseError)
    ensures
        error == refuse(lexeme.token@, lexeme.pos, expected),
{
    match lexeme.token {
        Token::Invalid => ParseError::LexError { pos: lexeme.pos },
        _ => ParseError::SyntaxError {
            pos: lexeme.pos,
            found: lexeme.token.kind(),
            expected: expected,
        },
    }
}

/// Reads a token of kind `kind`.
pub fn take_kind(chars: &[char], cur: Cursor, kind: TokenKind, expected: Expecting) -> (out: Result<
    Cursor,
    ParseError,
>)
    requires
        cur.wf(chars@),
    ensures
        match out {
            Ok(next) => expect_kind(chars@, cur.index as int, kind, expected) == Ok::<
                int,
                ParseError,
            >(next.index as int) && next.wf(chars@),
            Err(error) => expect_kind(chars@, cur.index as int, kind, expected) == Err::<
                int,
                ParseError,
            >(error),
        },
{
    let (lexeme, next) = next_lexeme(chars, cur);
    if lexeme.token.kind() == kind {
        Ok(next)
    } else {
        Err(refuse_lexeme(&lexeme, expected))
    }
}

/// Reads an integer.
pub fn take_integer(chars: &[char], cur: Cursor) -> (out: Result<(i32, Cursor), ParseError>)
    requires
        cur.wf(chars@),
    ensures
        reads(out, chars@, expect_integer(chars@, cur.index as int)),
{
    let (lexeme, next) = next_lexeme(chars, cur);
    match lexeme.token {
        Token::Integer(Some(value)) => Ok((value, next)),
        Token::Integer(None) => Err(
            ParseError::SemanticError {
                pos: lexeme.pos,
                reason: SemanticReason::IntegerOutOfRange,
            },
        ),
        _ => Err(refuse_lexeme(&lexeme, Expecting::Integer)),
    }
}

/// Reads a quoted string.
pub fn take_string(chars: &[char], cur: Cursor) -> (out: Result<(String, Cursor), ParseError>)
    requires
        cur.wf(chars@),
    ensures
        reads_view(out, chars@, expect_string(chars@, cur.index as int)),
{
    let (lexeme, next) = next_lexeme(chars, cur);
    match lexeme.token {
        Token::QuotedString(content) => Ok((content, next)),
        _ => Err(refuse_lexeme(&lexeme, Expecting::QuotedString)),
    }
}

/// Reads a pair of co-ordinates.
pub fn take_coords(chars: &[char], cur: Cursor) -> (out: Result<(Coords, Cursor), ParseError>)
    requires
        cur.wf(chars@),
    ensures
        reads(out, chars@, expect_coords(chars@, cur.index as int)),
{
    let (x, after_x) = take_integer(chars, cur)?;
    let (y, after_y) = take_integer(chars, after_x)?;
    Ok((Coords { x: x, y: y }, after_y))
}

/// Reads a wire kind.
pub fn take_wire_type(chars: &[char], cur: Cursor) -> (out: Result<(WireType, Cursor), ParseError>)
    requires
        cur.wf(chars@),
    ensures
        reads(out, chars@, expect_wire_type(chars@, cur.index as int)),
{
    let (lexeme, next) = next_lexeme(chars, cur);
    match lexeme.token {
        Token::Keyword(Keyword::Wire) => Ok((WireType::Wire, next)),
        Token::Keyword(Keyword::Bus) => Ok((WireType::Bus, next)),
        Token::Keyword(Keyword::Note) => Ok((WireType::Note, next)),
        Token::Keyword(_) | Token::Word(_) => Err(
            ParseError::SemanticError {
                pos: lexeme.pos,
                reason: SemanticReason::UnknownWireType,
            },
        ),
        _ => Err(refuse_lexeme(&lexeme, Expecting::WireKind)),
    }
}

/// Reads what follows the keyword `Title`.
pub fn parse_title(chars: &[char], cur: Cursor) -> (out: Result<(HeaderKind, Cursor), ParseError>)
    requires
        cur.wf(chars@),
    ensures
        reads_view(out, chars@, title_rest(chars@, cur.index as int)),
{
    let (name, after) = take_string(chars, cur)?;
    Ok((HeaderKind::DumpName(name), after))
}

/// Makes the header of a quoted date that stands at `pos` from what the
/// calendar made of it: a date that the calendar does not hold is a
/// semantic error at `pos`.
pub fn header_of_date(parsed: Option<CalendarDate>, pos: Position) -> (out: Result<
    HeaderKind,
    ParseError,
>)
    ensures
        match out {
            Ok(header) => date_header(parsed, pos) == Ok::<HeaderView, ParseError>(header@),
            Err(error) => date_header(parsed, pos) == Err::<HeaderView, ParseError>(error),
        },
{
    match parsed {
        Some(date) => Ok(HeaderKind::LastUpdated(date)),
        None => Err(ParseError::SemanticError { pos: pos, reason: SemanticReason::InvalidDate }),
    }
}

/// Reads what follows the keyword `Date`.
pub fn parse_date(chars: &[char], cur: Cursor) -> (out: Result<(HeaderKind, Cursor), ParseError>)
    requires
        cur.wf(chars@),
    ensures
        reads_view(out, chars@, date_rest(chars@, cur.index as int)),
{
    let (lexeme, next) = next_lexeme(chars, cur);
    match lexeme.token {
        Token::QuotedString(written) => {
            let header = header_of_date(CalendarDate::parse(written.as_str()), lexeme.pos)?;
            Ok((header, next))
        },
        _ => Err(refuse_lexeme(&lexeme, Expecting::QuotedString)),
    }
}

/// Reads what follows the keyword `Version`.
pub fn parse_version(chars: &[char], cur: Cursor) -> (out: Result<(HeaderKind, Cursor), ParseError>)
    requires
        cur.wf(chars@),
    ensures
        reads_view(out, chars@, version_rest(chars@, cur.index as int)),
{
    let (lexeme, next) = next_lexeme(chars, cur);
    match lexeme.token {
        Token::Integer(Some(version)) => {
            if 0 <= version && version <= 255 {
                Ok((HeaderKind::DumpVersion(version as u8), next))
            } else {
                Err(
                    ParseError::SemanticError {
                        pos: lexeme.pos,
                        reason: SemanticReason::VersionOutOfRange,
                    },
                )
            }
        },
        Token::Integer(None) => Err(
            ParseError::SemanticError {
                pos: lexeme.pos,
                reason: SemanticReason::IntegerOutOfRange,
            },
        ),
        _ => Err(refuse_lexeme(&lexeme, Expecting::Integer)),
    }
}

/// Reads what follows the keyword `Encoding`.
pub fn parse_encoding(chars: &[char], cur: Cursor) -> (out: Result<
    (HeaderKind, Cursor),
    ParseError,
>)
    requires
        cur.wf(chars@),
    ensures
        reads_view(out, chars@, encoding_rest(chars@, cur.index as int)),
{
    let (lexeme, next) = next_lexeme(chars, cur);
    match lexeme.token {
        Token::Keyword(Keyword::Utf8) => Ok((HeaderKind::Encoding(EncodeKind::UTF8), next)),
        Token::Keyword(_) | Token::Word(_) => Err(
            ParseError::SemanticError {
                pos: lexeme.pos,
                reason: SemanticReason::UnknownEncoding,
            },
        ),
        _ => Err(refuse_lexeme(&lexeme, Expecting::EncodingName)),
    }
}

/// Reads what follows the keyword `Connection`.
pub fn parse_connection(chars: &[char], cur: Cursor) -> (out: Result<
    (Connection, Cursor),
    ParseError,
>)
    requires
        cur.wf(chars@),
    ensures
        reads(out, chars@, connection_rest(chars@, cur.index as int)),
{
    let after_tilde = take_kind(chars, cur, TokenKind::Tilde, Expecting::Tilde)?;
    let (pos, after) = take_coords(chars, after_tilde)?;
    Ok((Connection { pos: pos }, after))
}

/// Reads what follows the keyword `Wire` at the start of a line.
pub fn parse_wire(chars: &[char], cur: Cursor) -> (out: Result<(Wire, Cursor), ParseError>)
    requires
        cur.wf(chars@),
    ensures
        reads(out, chars@, wire_rest(chars@, cur.index as int)),
{
    let (ty, after_ty) = take_wire_type(chars, cur)?;
    let after_line = take_kind(chars, after_ty, TokenKind::Line, Expecting::LineKeyword)?;
    let after_break = take_kind(chars, after_line, TokenKind::LineBreak, Expecting::LineBreak)?;
    let (start, after_start) = take_coords(chars, after_break)?;
    let (end, after) = take_coords(chars, after_start)?;
    Ok((Wire { ty: ty, start: start, end: end }, after))
}

/// Reads what follows the keyword `Text`.
pub fn parse_text_label(chars: &[char], cur: Cursor) -> (out: Result<(Text, Cursor), ParseError>)
    requires
        cur.wf(chars@),
    ensures
        reads_view(out, chars@, text_rest(chars@, cur.index as int)),
{
    let (pos, after_pos) = take_coords(chars, cur)?;
    let (shape, after_shape) = take_coords(chars, after_pos)?;
    let after_break = take_kind(chars, after_shape, TokenKind::LineBreak, Expecting::LineBreak)?;
    let (content, after) = take_string(chars, after_break)?;
    Ok(
        (
            Text { pos: pos, orientation: shape.x, dimension: shape.y, content: content },
            after,
        ),
    )
}

/// Reads what follows the name of a component.
pub fn parse_component(chars: &[char], name: String, cur: Cursor) -> (out: Result<
    (Component, Cursor),
    ParseError,
>)
    requires
        cur.wf(chars@),
    ensures
        reads_view(out, chars@, component_rest(chars@, name@, cur.index as int)),
{
    let after_colon = take_kind(chars, cur, TokenKind::Colon, Expecting::Colon)?;
    let (lexeme, after_word) = next_lexeme(chars, after_colon);
    match lexeme.token {
        Token::Word(description) => {
            let after_break = take_kind(
                chars,
                after_word,
                TokenKind::LineBreak,
                Expecting::LineBreak,
            )?;
            let (pos, after) = take_coords(chars, after_break)?;
            Ok((Component { name: (name, description), pos: pos }, after))
        },
        _ => Err(refuse_lexeme(&lexeme, Expecting::Description)),
    }
}

/// Reads one construct, from its first token to its last.
pub fn parse_item(chars: &[char], cur: Cursor) -> (out: Result<(Item, Cursor), ParseError>)
    requires
        cur.wf(chars@),
    ensures
        reads_view(out, chars@, item_at(chars@, cur.index as int)),
{
    let (first, rest) = next_lexeme(chars, cur);
    match first.token {
        Token::Keyword(Keyword::Title) => {
            let (header, after) = parse_title(chars, rest)?;
            Ok((Item::Header(header), after))
        },
        Token::Keyword(Keyword::Date) => {
            let (header, after) = parse_date(chars, rest)?;
            Ok((Item::Header(header), after))
        },
        Token::Keyword(Keyword::Version) => {
            let (header, after) = parse_version(chars, rest)?;
            Ok((Item::Header(header), after))
        },
        Token::Keyword(Keyword::Encoding) => {
            let (header, after) = parse_encoding(chars, rest)?;
            Ok((Item::Header(header), after))
        },
        Token::Keyword(Keyword::Connection) => {
            let (connection, after) = parse_connection(chars, rest)?;
            Ok((Item::Node(SchemaNode::Connection(connection)), after))
        },
        Token::Keyword(Keyword::Wire) => {
            let (wire, after) = parse_wire(chars, rest)?;
            Ok((Item::Node(SchemaNode::Wire(wire)), after))
        },
        Token::Keyword(Keyword::Text) => {
            let (label, after) = parse_text_label(chars, rest)?;
            Ok((Item::Node(SchemaNode::Text(label)), after))
        },
        Token::Word(name) => {
            let (component, after) = parse_component(chars, name, rest)?;
            Ok((Item::Node(SchemaNode::Component(component)), after))
        },
        _ => Err(refuse_lexeme(&first, Expecting::ItemStart)),
    }
}

/// What stands at the start of a line.
#[derive(Debug, PartialEq, Eq, Clone, Copy, Structural)]
pub enum LineStart {
    /// The end of the text.
    End,
    /// A line break, with the cursor behind it: the line is blank.
    Blank(Cursor),
    /// The first token of a construct, or no token at all.
    Item,
}

/// Looks at the start of a line without reading a token.
pub fn peek_line(chars: &[char], cur: Cursor) -> (out: LineStart)
    requires
        cur.wf(chars@),
    ensures
        match out {
            LineStart::End => scan(chars@, cur.index as int).token == TokenView::End,
            LineStart::Blank(next) => {
                &&& scan(chars@, cur.index as int).token == TokenView::LineBreak
                &&& next.index == scan(chars@, cur.index as int).end
                &&& next.wf(chars@)
            },
            LineStart::Item => {
                &&& scan(chars@, cur.index as int).token != TokenView::End
                &&& scan(chars@, cur.index as int).token != TokenView::LineBreak
            },
        },
{
    let start = scan_run(chars, cur.index, CharClass::Blank);
    if start >= chars.len() {
        LineStart::End
    } else if chars[start] == '\n' {
        proof {
            lemma_run_end(chars@, cur.index as int, CharClass::Blank);
            lemma_same_line(chars@, cur.index as int, start as int);
            lemma_line_bounds(chars@, start as int);
        }
        LineStart::Blank(Cursor { index: start + 1, line: cur.line + 1, line_start: start + 1 })
    } else {
        LineStart::Item
    }
}

/// What one step of a parse yields.
#[derive(Debug, PartialEq, Eq)]
pub enum Step {
    /// The text ends, behind the construct if one was read.
    Stop(Option<Item>),
    /// A line was read, blank or with its construct, and the parse goes on
    /// at the cursor.
    Go(Option<Item>, Cursor),
    /// The parse ends with an error.
    Fail(ParseError),
}

/// What a construct that a step read is, if it read one.
pub open spec fn read_view(read: Option<Item>) -> Option<ItemView> {
    match read {
        Some(item) => Some(item@),
        None => None,
    }
}

impl Step {
    /// The step is a step of the grammar in `text`.
    pub open spec fn is_step(self, text: Seq<char>, at: int) -> bool {
        match self {
            Step::Stop(read) => step_at(text, at) == StepView::Stop(read_view(read)),
            Step::Go(read, next) => step_at(text, at) == StepView::Go(
                read_view(read),
                next.index as int,
            ) && next.wf(text),
            Step::Fail(error) => step_at(text, at) == StepView::Fail(error),
        }
    }
}

/// Makes one step of a parse from the start of a line.
pub fn parse_step(chars: &[char], cur: Cursor) -> (out: Step)
    requires
        cur.wf(chars@),
    ensures
        out.is_step(chars@, cur.index as int),
{
    reveal(step_at);
    match peek_line(chars, cur) {
        LineStart::End => Step::Stop(None),
        LineStart::Blank(next) => Step::Go(None, next),
        LineStart::Item => {
            match parse_item(chars, cur) {
                Err(error) => Step::Fail(error),
                Ok((item, after)) => {
                    let (last, next) = next_lexeme(chars, after);
                    match last.token {
                        Token::End => Step::Stop(Some(item)),
                        Token::LineBreak => Step::Go(Some(item), next),
                        _ => Step::Fail(refuse_lexeme(&last, Expecting::LineEnd)),
                    }
                },
            }
        },
    }
}

/// The schema that holds `headers` and `body`.
pub open spec fn schema_of(headers: Seq<HeaderKind>, body: Seq<SchemaNode>) -> SchemaView {
    SchemaView {
        headers: headers.map_values(|header: HeaderKind| header@),
        body: body.map_values(|node: SchemaNode| node@),
    }
}

/// What a parse returned, with the schema as its view.
pub open spec fn outcome_view(out: Result<KiCadSchema, ParseError>) -> Result<
    SchemaView,
    ParseError,
> {
    match out {
        Ok(schema) => Ok(schema@),
        Err(error) => Err(error),
    }
}

/// Adds what a step read to the headers or to the body.
pub fn add_read(headers: &mut Vec<HeaderKind>, body: &mut Vec<SchemaNode>, read: Option<Item>)
    ensures
        schema_of(final(headers)@, final(body)@) == schema_of(old(headers)@, old(body)@).with_read(
            read_view(read),
        ),
{
    let ghost before = schema_of(headers@, body@);
    match read {
        Some(Item::Header(header)) => {
            headers.push(header);
        },
        Some(Item::Node(node)) => {
            body.push(node);
        },
        None => {},
    }
    assert(schema_of(headers@, body@).headers =~= before.with_read(read_view(read)).headers);
    assert(schema_of(headers@, body@).body =~= before.with_read(read_view(read)).body);
}

/// Parses the characters of a save file.
///
/// Returns the schema that the grammar reads in them, or the first error in
/// file order; never a part of a schema.
pub fn parse_chars(chars: &[char]) -> (out: Result<KiCadSchema, ParseError>)
    ensures
        outcome_view(out) == parse_text(chars@),
{
    let mut headers: Vec<HeaderKind> = Vec::new();
    let mut body: Vec<SchemaNode> = Vec::new();
    let mut cur = Cursor::start();
    assert(schema_of(headers@, body@).headers =~= SchemaView::empty().headers);
    assert(schema_of(headers@, body@).body =~= SchemaView::empty().body);
    loop
        invariant
            cur.wf(chars@),
            parse_text(chars@) == parse_from(
                chars@,
                cur.index as int,
                schema_of(headers@, body@),
            ),
        decreases chars@.len() - cur.index,
    {
        proof {
            lemma_parse_from(chars@, cur.index as int, schema_of(headers@, body@));
            lemma_step_bounds(chars@, cur.index as int);
        }
        match parse_step(chars, cur) {
            Step::Stop(read) => {
                add_read(&mut headers, &mut body, read);
                return Ok(KiCadSchema { headers: headers, body: body });
            },
            Step::Go(read, next) => {
                add_read(&mut headers, &mut body, read);
                cur = next;
            },
            Step::Fail(error) => {
                return Err(error);
            },
        }
    }
}

} // verus!
