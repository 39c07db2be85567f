//! What holds of every parse, stated over the tokens of the text.
//!
//! Each law speaks of [`parse_from`], the meaning of a text from a place on,
//! given the schema read before that place; with the place 0 and the empty
//! schema it speaks of [`parse_text`], of which [`crate::parse_kicad_str`]
//! returns the value.

use vstd::prelude::*;
use crate::ast::{Connection, Coords, KiCadSchema, NodeView, SchemaView, Wire, WireType};
use crate::error::{Expecting, ParseError};
use crate::grammar::{
    item_at, lemma_parse_from, outcome_view, parse_from, parse_text, pos_at, step_at,
    wire_type_of, ItemView,
};
use crate::lexer::{first_tokens, lemma_next_token_on_line, place_after, position_at, scan};
use crate::token::{Keyword, TokenKind, TokenView};
use crate::writing::{
    connection_text, connection_tokens, lemma_connection_layout, lemma_connection_scans,
    lemma_scan_end, lemma_wire_layout, lemma_wire_line_alone, lemma_wire_scans, wire_keyword,
    wire_line_text, wire_line_tokens, wire_text, wire_tokens,
};

verus! {

/// The schema whose body is one node and which has no header.
pub open spec fn single_node(node: NodeView) -> SchemaView {
    SchemaView { headers: Seq::empty(), body: seq![node] }
}

/// A connection line that ends the text adds its connection to the schema
/// and ends the parse: wherever the four tokens `Connection ~ x y` are
/// followed by the end of the text, the parse from their place returns the
/// schema read so far with the connection at `(x, y)` at the end of its
/// body.
pub proof fn law_connection_ends_parse(text: Seq<char>, at: int, schema: SchemaView, x: i32, y: i32)
    requires
        0 <= at <= text.len(),
        first_tokens(text, at, 5) == connection_tokens(x, y).push(TokenView::End),
    ensures
        parse_from(text, at, schema) == Ok::<SchemaView, ParseError>(
            schema.with_node(NodeView::Connection(Connection { pos: Coords { x: x, y: y } })),
        ),
{
    lemma_parse_from(text, at, schema);
    reveal(step_at);
    reveal_with_fuel(place_after, 5);
    let tokens = first_tokens(text, at, 5);
    assert(tokens[0] == TokenView::Keyword(Keyword::Connection));
    assert(tokens[1] == TokenView::Tilde);
    assert(tokens[2] == TokenView::Integer(Some(x)));
    assert(tokens[3] == TokenView::Integer(Some(y)));
    assert(tokens[4] == TokenView::End);
    let after_first = place_after(text, at, 1);
    let after_second = place_after(text, at, 2);
    let after_third = place_after(text, at, 3);
    let after_fourth = place_after(text, at, 4);
    assert(after_first == scan(text, at).end);
    assert(after_second == scan(text, after_first).end);
    assert(after_third == scan(text, after_second).end);
    assert(after_fourth == scan(text, after_third).end);
    assert(item_at(text, at) == Ok::<(ItemView, int), ParseError>(
        (
            ItemView::Node(NodeView::Connection(Connection { pos: Coords { x: x, y: y } })),
            after_fourth,
        ),
    ));
}

/// For every text that holds one connection line and nothing else, the
/// parse yields a schema without headers whose body is the one connection
/// at `(x, y)`, whatever the signs of `x` and `y`.
pub proof fn law_connection(text: Seq<char>, x: i32, y: i32)
    requires
        first_tokens(text, 0, 5) == connection_tokens(x, y).push(TokenView::End),
    ensures
        parse_text(text) == Ok::<SchemaView, ParseError>(
            single_node(NodeView::Connection(Connection { pos: Coords { x: x, y: y } })),
        ),
{
    law_connection_ends_parse(text, 0, SchemaView::empty(), x, y);
    assert(SchemaView::empty().with_node(
        NodeView::Connection(Connection { pos: Coords { x: x, y: y } }),
    ).body =~= seq![NodeView::Connection(Connection { pos: Coords { x: x, y: y } })]);
}

/// A connection line that is followed by a line break adds its connection
/// to the schema, and the parse goes on behind the line break.
pub proof fn law_connection_continues(
    text: Seq<char>,
    at: int,
    schema: SchemaView,
    x: i32,
    y: i32,
)
    requires
        0 <= at <= text.len(),
        first_tokens(text, at, 5) == connection_tokens(x, y).push(TokenView::LineBreak),
    ensures
        parse_from(text, at, schema) == parse_from(
            text,
            place_after(text, at, 5),
            schema.with_node(NodeView::Connection(Connection { pos: Coords { x: x, y: y } })),
        ),
{
    lemma_parse_from(text, at, schema);
    reveal(step_at);
    reveal_with_fuel(place_after, 6);
    let tokens = first_tokens(text, at, 5);
    assert(tokens[0] == TokenView::Keyword(Keyword::Connection));
    assert(tokens[1] == TokenView::Tilde);
    assert(tokens[2] == TokenView::Integer(Some(x)));
    assert(tokens[3] == TokenView::Integer(Some(y)));
    assert(tokens[4] == TokenView::LineBreak);
    let after_fourth = place_after(text, at, 4);
    assert(item_at(text, at) == Ok::<(ItemView, int), ParseError>(
        (
            ItemView::Node(NodeView::Connection(Connection { pos: Coords { x: x, y: y } })),
            after_fourth,
        ),
    ));
}

/// What the grammar makes of the eight tokens of a wire: the wire, and the
/// place behind them.
proof fn lemma_wire_item(text: Seq<char>, at: int, wire: Wire)
    requires
        first_tokens(text, at, 8) == wire_tokens(wire),
    ensures
        item_at(text, at) == Ok::<(ItemView, int), ParseError>(
            (ItemView::Node(NodeView::Wire(wire)), place_after(text, at, 8)),
        ),
{
    reveal_with_fuel(place_after, 9);
    let tokens = first_tokens(text, at, 8);
    assert(tokens[0] == TokenView::Keyword(Keyword::Wire));
    assert(tokens[1] == TokenView::Keyword(wire_keyword(wire.ty)));
    assert(tokens[2] == TokenView::Keyword(Keyword::Line));
    assert(tokens[3] == TokenView::LineBreak);
    assert(tokens[4] == TokenView::Integer(Some(wire.start.x)));
    assert(tokens[5] == TokenView::Integer(Some(wire.start.y)));
    assert(tokens[6] == TokenView::Integer(Some(wire.end.x)));
    assert(tokens[7] == TokenView::Integer(Some(wire.end.y)));
    assert(wire_type_of(tokens[1]) == Some(wire.ty));
}

/// A wire that ends the text adds itself to the schema and ends the parse:
/// wherever the keyword line `Wire <kind> Line`, a line break and four
/// integers are followed by the end of the text, the parse from their place
/// returns the schema read so far with the wire of that kind and those two
/// ends at the end of its body.
pub proof fn law_wire_ends_parse(text: Seq<char>, at: int, schema: SchemaView, wire: Wire)
    requires
        0 <= at <= text.len(),
        first_tokens(text, at, 9) == wire_tokens(wire).push(TokenView::End),
    ensures
        parse_from(text, at, schema) == Ok::<SchemaView, ParseError>(
            schema.with_node(NodeView::Wire(wire)),
        ),
{
    lemma_parse_from(text, at, schema);
    reveal(step_at);
    assert(first_tokens(text, at, 8) =~= wire_tokens(wire)) by {
        assert forall|k: int| 0 <= k < 8 implies first_tokens(text, at, 8)[k] == wire_tokens(
            wire,
        )[k] by {
            assert(first_tokens(text, at, 9)[k] == wire_tokens(wire).push(TokenView::End)[k]);
        }
    }
    lemma_wire_item(text, at, wire);
    assert(first_tokens(text, at, 9)[8] == TokenView::End);
    assert(first_tokens(text, at, 9)[0] == TokenView::Keyword(Keyword::Wire));
    reveal_with_fuel(place_after, 1);
}

/// A wire that is followed by a line break adds itself to the schema, and
/// the parse goes on behind the line break.
pub proof fn law_wire_continues(text: Seq<char>, at: int, schema: SchemaView, wire: Wire)
    requires
        0 <= at <= text.len(),
        first_tokens(text, at, 9) == wire_tokens(wire).push(TokenView::LineBreak),
    ensures
        parse_from(text, at, schema) == parse_from(
            text,
            place_after(text, at, 9),
            schema.with_node(NodeView::Wire(wire)),
        ),
{
    lemma_parse_from(text, at, schema);
    reveal(step_at);
    assert(first_tokens(text, at, 8) =~= wire_tokens(wire)) by {
        assert forall|k: int| 0 <= k < 8 implies first_tokens(text, at, 8)[k] == wire_tokens(
            wire,
        )[k] by {
            assert(first_tokens(text, at, 9)[k] == wire_tokens(wire).push(
                TokenView::LineBreak,
            )[k]);
        }
    }
    lemma_wire_item(text, at, wire);
    assert(first_tokens(text, at, 9)[8] == TokenView::LineBreak);
    assert(first_tokens(text, at, 9)[0] == TokenView::Keyword(Keyword::Wire));
    reveal_with_fuel(place_after, 1);
}

/// For every text that holds one wire in its two-line shape and nothing
/// else, the parse yields a schema without headers whose body is the one
/// wire, with the kind and the two ends that the text writes.
pub proof fn law_wire(text: Seq<char>, wire: Wire)
    requires
        first_tokens(text, 0, 9) == wire_tokens(wire).push(TokenView::End),
    ensures
        parse_text(text) == Ok::<SchemaView, ParseError>(single_node(NodeView::Wire(wire))),
{
    law_wire_ends_parse(text, 0, SchemaView::empty(), wire);
    assert(SchemaView::empty().with_node(NodeView::Wire(wire)).body =~= seq![
        NodeView::Wire(wire),
    ]);
}

/// A wire's keyword line that is not followed by a line break is a syntax
/// error at the token that stands in the line break's place, whatever was
/// read before: no schema is returned.
pub proof fn law_wire_needs_line_break(text: Seq<char>, at: int, schema: SchemaView, ty: WireType)
    requires
        0 <= at <= text.len(),
        first_tokens(text, at, 3) == wire_line_tokens(ty),
        scan(text, place_after(text, at, 3)).token.kind() != TokenKind::LineBreak,
        scan(text, place_after(text, at, 3)).token.kind() != TokenKind::Invalid,
    ensures
        parse_from(text, at, schema) == Err::<SchemaView, ParseError>(
            ParseError::SyntaxError {
                pos: pos_at(text, place_after(text, at, 3)),
                found: scan(text, place_after(text, at, 3)).token.kind(),
                expected: Expecting::LineBreak,
            },
        ),
{
    lemma_parse_from(text, at, schema);
    reveal(step_at);
    reveal_with_fuel(place_after, 4);
    let tokens = first_tokens(text, at, 3);
    assert(tokens[0] == TokenView::Keyword(Keyword::Wire));
    assert(tokens[1] == TokenView::Keyword(wire_keyword(ty)));
    assert(tokens[2] == TokenView::Keyword(Keyword::Line));
    assert(wire_type_of(tokens[1]) == Some(ty));
}

/// The tokens of a wire's keyword line, the line break, and `count`
/// integers.
pub open spec fn is_short_wire(tokens: Seq<TokenView>, ty: WireType, count: nat) -> bool {
    &&& tokens.len() == 4 + count
    &&& tokens.subrange(0, 3) == wire_line_tokens(ty)
    &&& tokens[3] == TokenView::LineBreak
    &&& forall|k: int| 4 <= k < 4 + count ==> (#[trigger] tokens[k]) is Integer && tokens[k]
        != TokenView::Integer(None)
}

/// A wire's keyword line whose coordinate line is missing or holds fewer
/// than four integers is a syntax error at the token that stands in the
/// place of the next integer, whatever was read before: no schema is
/// returned.
pub proof fn law_wire_needs_four_integers(
    text: Seq<char>,
    at: int,
    schema: SchemaView,
    ty: WireType,
    count: nat,
)
    requires
        0 <= at <= text.len(),
        count < 4,
        is_short_wire(first_tokens(text, at, 4 + count), ty, count),
        scan(text, place_after(text, at, 4 + count)).token.kind() != TokenKind::Integer,
        scan(text, place_after(text, at, 4 + count)).token.kind() != TokenKind::Invalid,
    ensures
        parse_from(text, at, schema) == Err::<SchemaView, ParseError>(
            ParseError::SyntaxError {
                pos: pos_at(text, place_after(text, at, 4 + count)),
                found: scan(text, place_after(text, at, 4 + count)).token.kind(),
                expected: Expecting::Integer,
            },
        ),
{
    lemma_parse_from(text, at, schema);
    reveal(step_at);
    reveal_with_fuel(place_after, 8);
    let tokens = first_tokens(text, at, 4 + count);
    assert(tokens.subrange(0, 3)[0] == tokens[0]);
    assert(tokens.subrange(0, 3)[1] == tokens[1]);
    assert(tokens.subrange(0, 3)[2] == tokens[2]);
    assert(tokens[0] == TokenView::Keyword(Keyword::Wire));
    assert(tokens[1] == TokenView::Keyword(wire_keyword(ty)));
    assert(tokens[2] == TokenView::Keyword(Keyword::Line));
    assert(tokens[3] == TokenView::LineBreak);
    assert(wire_type_of(tokens[1]) == Some(ty));
    if count >= 1 {
        assert(tokens[4] is Integer);
    }
    if count >= 2 {
        assert(tokens[5] is Integer);
    }
    if count >= 3 {
        assert(tokens[6] is Integer);
    }
}

/// Whether a keyword starts a construct.
pub open spec fn starts_construct(keyword: Keyword) -> bool {
    match keyword {
        Keyword::Title
        | Keyword::Date
        | Keyword::Version
        | Keyword::Encoding
        | Keyword::Connection
        | Keyword::Wire
        | Keyword::Text => true,
        _ => false,
    }
}

/// A word at the start of a line that is no keyword, and that no colon
/// follows, is a syntax error on the line of that word, whatever was read
/// before.
pub proof fn law_unknown_word(text: Seq<char>, at: int, schema: SchemaView)
    requires
        0 <= at <= text.len(),
        scan(text, at).token is Word,
        scan(text, place_after(text, at, 1)).token.kind() != TokenKind::Colon,
        scan(text, place_after(text, at, 1)).token.kind() != TokenKind::Invalid,
    ensures
        parse_from(text, at, schema) == Err::<SchemaView, ParseError>(
            ParseError::SyntaxError {
                pos: pos_at(text, place_after(text, at, 1)),
                found: scan(text, place_after(text, at, 1)).token.kind(),
                expected: Expecting::Colon,
            },
        ),
        pos_at(text, place_after(text, at, 1)).line == pos_at(text, at).line,
{
    lemma_parse_from(text, at, schema);
    reveal(step_at);
    reveal_with_fuel(place_after, 2);
    lemma_next_token_on_line(text, at);
}

/// A keyword at the start of a line that starts no construct is a syntax
/// error at that keyword, whatever was read before.
pub proof fn law_misplaced_keyword(text: Seq<char>, at: int, schema: SchemaView, keyword: Keyword)
    requires
        0 <= at <= text.len(),
        scan(text, at).token == TokenView::Keyword(keyword),
        !starts_construct(keyword),
    ensures
        parse_from(text, at, schema) == Err::<SchemaView, ParseError>(
            ParseError::SyntaxError {
                pos: pos_at(text, at),
                found: keyword.spec_kind(),
                expected: Expecting::ItemStart,
            },
        ),
{
    lemma_parse_from(text, at, schema);
    reveal(step_at);
}

/// For all `x` and `y`, positive or negative, the text `Connection ~ x y`
/// parses to a schema without headers whose body is the one connection at
/// `(x, y)`.
pub proof fn law_connection_text(x: i32, y: i32)
    ensures
        parse_text(connection_text(x, y)) == Ok::<SchemaView, ParseError>(
            single_node(NodeView::Connection(Connection { pos: Coords { x: x, y: y } })),
        ),
{
    lemma_connection_layout(x, y);
    lemma_connection_scans(connection_text(x, y), x, y);
    law_connection(connection_text(x, y), x, y);
}

/// For every wire, the two lines `Wire <kind> Line` and `x1 y1 x2 y2`
/// parse to a schema without headers whose body is that one wire.
pub proof fn law_wire_text(wire: Wire)
    ensures
        parse_text(wire_text(wire)) == Ok::<SchemaView, ParseError>(
            single_node(NodeView::Wire(wire)),
        ),
{
    lemma_wire_layout(wire);
    lemma_wire_scans(wire_text(wire), wire);
    law_wire(wire_text(wire), wire);
}

/// For every wire kind, the keyword line `Wire <kind> Line` without a
/// coordinate line is a syntax error at the end of the text, where the line
/// break was expected.
pub proof fn law_wire_line_alone(ty: WireType)
    ensures
        parse_text(wire_line_text(ty)) == Err::<SchemaView, ParseError>(
            ParseError::SyntaxError {
                pos: position_at(wire_line_text(ty), wire_line_text(ty).len() as int),
                found: TokenKind::End,
                expected: Expecting::LineBreak,
            },
        ),
{
    let text = wire_line_text(ty);
    let end = text.len() as int;
    lemma_wire_line_alone(ty);
    lemma_scan_end(text);
    law_wire_needs_line_break(text, 0, SchemaView::empty(), ty);
}

/// Parsing is a function of the text: two parses of equal texts return
/// equal values. The schemas are compared by their views, the errors as
/// they are.
pub proof fn law_deterministic(
    text: Seq<char>,
    again: Seq<char>,
    first: Result<KiCadSchema, ParseError>,
    second: Result<KiCadSchema, ParseError>,
)
    requires
        text == again,
        outcome_view(first) == parse_text(text),
        outcome_view(second) == parse_text(again),
    ensures
        outcome_view(first) == outcome_view(second),
        first is Ok <==> second is Ok,
{
}

} // verus!
