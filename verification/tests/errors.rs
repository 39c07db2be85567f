use kicad_schema_parser::{
    parse_kicad_str, Expecting, ParseError, Position, SemanticReason, TokenKind,
};

fn at(offset: usize, line: usize, column: usize) -> Position {
    Position { offset, line, column }
}

fn syntax(pos: Position, found: TokenKind, expected: Expecting) -> ParseError {
    ParseError::SyntaxError { pos, found, expected }
}

fn semantic(pos: Position, reason: SemanticReason) -> ParseError {
    ParseError::SemanticError { pos, reason }
}

#[test]
fn wire_without_second_pair_is_a_syntax_error() {
    assert_eq!(
        parse_kicad_str("Wire Wire Line\n10500 4600"),
        Err(syntax(at(25, 1, 10), TokenKind::End, Expecting::Integer))
    );
}

#[test]
fn wire_without_coordinate_line_is_a_syntax_error() {
    assert_eq!(
        parse_kicad_str("Wire Wire Line"),
        Err(syntax(at(14, 0, 14), TokenKind::End, Expecting::LineBreak))
    );
    assert_eq!(
        parse_kicad_str("Wire Bus Line\n"),
        Err(syntax(at(14, 1, 0), TokenKind::End, Expecting::Integer))
    );
    assert_eq!(
        parse_kicad_str("Wire Note Line\n\n1 2 3 4"),
        Err(syntax(at(15, 1, 0), TokenKind::LineBreak, Expecting::Integer))
    );
    assert_eq!(
        parse_kicad_str("Wire Wire Line\nConnection ~ 1 2"),
        Err(syntax(at(15, 1, 0), TokenKind::Connection, Expecting::Integer))
    );
    assert_eq!(
        parse_kicad_str("Wire Wire Line 1 2 3 4"),
        Err(syntax(at(15, 0, 15), TokenKind::Integer, Expecting::LineBreak))
    );
}

#[test]
fn unknown_leading_keyword_is_a_syntax_error_on_its_line() {
    assert_eq!(
        parse_kicad_str("Connection ~ 1 2\nFoo 1 2"),
        Err(syntax(at(21, 1, 4), TokenKind::Integer, Expecting::Colon))
    );
    assert_eq!(
        parse_kicad_str("Connection ~ 1 2\n\n  Junction\n"),
        Err(syntax(at(28, 2, 10), TokenKind::LineBreak, Expecting::Colon))
    );
}

#[test]
fn token_that_starts_no_construct_is_a_syntax_error() {
    assert_eq!(
        parse_kicad_str("Line 1 2"),
        Err(syntax(at(0, 0, 0), TokenKind::Line, Expecting::ItemStart))
    );
    assert_eq!(
        parse_kicad_str("\n\n  ~ 1 2"),
        Err(syntax(at(4, 2, 2), TokenKind::Tilde, Expecting::ItemStart))
    );
    assert_eq!(
        parse_kicad_str("12"),
        Err(syntax(at(0, 0, 0), TokenKind::Integer, Expecting::ItemStart))
    );
    assert_eq!(
        parse_kicad_str("\"free text\""),
        Err(syntax(at(0, 0, 0), TokenKind::QuotedString, Expecting::ItemStart))
    );
}

#[test]
fn construct_must_end_its_line() {
    assert_eq!(
        parse_kicad_str("Connection ~ 1 2 Connection ~ 3 4"),
        Err(syntax(at(17, 0, 17), TokenKind::Connection, Expecting::LineEnd))
    );
    assert_eq!(
        parse_kicad_str("Connection ~ 1 2 3"),
        Err(syntax(at(17, 0, 17), TokenKind::Integer, Expecting::LineEnd))
    );
}

#[test]
fn connection_needs_its_tilde_and_both_numbers() {
    assert_eq!(
        parse_kicad_str("Connection 1 2"),
        Err(syntax(at(11, 0, 11), TokenKind::Integer, Expecting::Tilde))
    );
    assert_eq!(
        parse_kicad_str("Connection ~ 1\n2"),
        Err(syntax(at(14, 0, 14), TokenKind::LineBreak, Expecting::Integer))
    );
    assert_eq!(
        parse_kicad_str("Connection ~ \"1\" 2"),
        Err(syntax(at(13, 0, 13), TokenKind::QuotedString, Expecting::Integer))
    );
}

#[test]
fn character_outside_every_token_is_a_lex_error() {
    assert_eq!(
        parse_kicad_str("Connection ~ 1 $"),
        Err(ParseError::LexError { pos: at(15, 0, 15) })
    );
    assert_eq!(parse_kicad_str("#"), Err(ParseError::LexError { pos: at(0, 0, 0) }));
    assert_eq!(
        parse_kicad_str("Connection ~ 1 2\n\u{3a9}"),
        Err(ParseError::LexError { pos: at(17, 1, 0) })
    );
}

#[test]
fn sign_without_digits_is_a_lex_error() {
    assert_eq!(
        parse_kicad_str("Connection ~ - 2"),
        Err(ParseError::LexError { pos: at(13, 0, 13) })
    );
    assert_eq!(
        parse_kicad_str("Connection ~ 1 -"),
        Err(ParseError::LexError { pos: at(15, 0, 15) })
    );
}

#[test]
fn string_that_is_not_closed_on_its_line_is_a_lex_error() {
    assert_eq!(
        parse_kicad_str("Title \"open"),
        Err(ParseError::LexError { pos: at(6, 0, 6) })
    );
    assert_eq!(
        parse_kicad_str("Title \"open\nclose\""),
        Err(ParseError::LexError { pos: at(6, 0, 6) })
    );
}

#[test]
fn integer_beyond_32_bits_is_a_semantic_error() {
    assert_eq!(
        parse_kicad_str("Connection ~ 2147483648 0"),
        Err(semantic(at(13, 0, 13), SemanticReason::IntegerOutOfRange))
    );
    assert_eq!(
        parse_kicad_str("Connection ~ 0 -2147483649"),
        Err(semantic(at(15, 0, 15), SemanticReason::IntegerOutOfRange))
    );
    assert_eq!(
        parse_kicad_str("Connection ~ 99999999999999999999999999999999999999 0"),
        Err(semantic(at(13, 0, 13), SemanticReason::IntegerOutOfRange))
    );
    assert_eq!(
        parse_kicad_str("Version 4294967300"),
        Err(semantic(at(8, 0, 8), SemanticReason::IntegerOutOfRange))
    );
}

#[test]
fn version_outside_a_byte_is_a_semantic_error() {
    assert_eq!(
        parse_kicad_str("Version 256"),
        Err(semantic(at(8, 0, 8), SemanticReason::VersionOutOfRange))
    );
    assert_eq!(
        parse_kicad_str("Version -1"),
        Err(semantic(at(8, 0, 8), SemanticReason::VersionOutOfRange))
    );
    assert_eq!(
        parse_kicad_str("Version \"4\""),
        Err(syntax(at(8, 0, 8), TokenKind::QuotedString, Expecting::Integer))
    );
}

#[test]
fn word_that_names_no_wire_kind_is_a_semantic_error() {
    assert_eq!(
        parse_kicad_str("Wire Cable Line\n1 2 3 4"),
        Err(semantic(at(5, 0, 5), SemanticReason::UnknownWireType))
    );
    assert_eq!(
        parse_kicad_str("Wire Line\n1 2 3 4"),
        Err(semantic(at(5, 0, 5), SemanticReason::UnknownWireType))
    );
    assert_eq!(
        parse_kicad_str("Wire 5 Line\n1 2 3 4"),
        Err(syntax(at(5, 0, 5), TokenKind::Integer, Expecting::WireKind))
    );
    assert_eq!(
        parse_kicad_str("Wire Wire Bus\n1 2 3 4"),
        Err(syntax(at(10, 0, 10), TokenKind::Bus, Expecting::LineKeyword))
    );
}

#[test]
fn word_that_names_no_encoding_is_a_semantic_error() {
    assert_eq!(
        parse_kicad_str("Encoding Latin1"),
        Err(semantic(at(9, 0, 9), SemanticReason::UnknownEncoding))
    );
    assert_eq!(
        parse_kicad_str("Encoding"),
        Err(syntax(at(8, 0, 8), TokenKind::End, Expecting::EncodingName))
    );
}

#[test]
fn date_that_the_calendar_lacks_is_a_semantic_error() {
    assert_eq!(
        parse_kicad_str("Title \"t\"\nDate \"2021-02-30\""),
        Err(semantic(at(15, 1, 5), SemanticReason::InvalidDate))
    );
    assert_eq!(
        parse_kicad_str("Date \"5 sep 2015\""),
        Err(semantic(at(5, 0, 5), SemanticReason::InvalidDate))
    );
    assert_eq!(
        parse_kicad_str("Date 2015-09-05"),
        Err(syntax(at(5, 0, 5), TokenKind::Integer, Expecting::QuotedString))
    );
}

#[test]
fn text_needs_its_content_on_the_next_line() {
    assert_eq!(
        parse_kicad_str("Text 1 2 3 4 \"here\""),
        Err(syntax(at(13, 0, 13), TokenKind::QuotedString, Expecting::LineBreak))
    );
    assert_eq!(
        parse_kicad_str("Text 1 2 3 4\nhere"),
        Err(syntax(at(13, 1, 0), TokenKind::Word, Expecting::QuotedString))
    );
    assert_eq!(
        parse_kicad_str("Text 1 2 3\n\"here\""),
        Err(syntax(at(10, 0, 10), TokenKind::LineBreak, Expecting::Integer))
    );
}

#[test]
fn component_needs_a_description_and_a_position() {
    assert_eq!(
        parse_kicad_str("R1:\n1 2"),
        Err(syntax(at(3, 0, 3), TokenKind::LineBreak, Expecting::Description))
    );
    assert_eq!(
        parse_kicad_str("R1:Wire\n1 2"),
        Err(syntax(at(3, 0, 3), TokenKind::Wire, Expecting::Description))
    );
    assert_eq!(
        parse_kicad_str("R1:R 1 2"),
        Err(syntax(at(5, 0, 5), TokenKind::Integer, Expecting::LineBreak))
    );
    assert_eq!(
        parse_kicad_str("R1:R\n1"),
        Err(syntax(at(6, 1, 1), TokenKind::End, Expecting::Integer))
    );
}

#[test]
fn first_error_in_file_order_wins() {
    assert_eq!(
        parse_kicad_str("Connection 1 2\n$"),
        Err(syntax(at(11, 0, 11), TokenKind::Integer, Expecting::Tilde))
    );
    assert_eq!(
        parse_kicad_str("Connection ~ $ 2\nFoo"),
        Err(ParseError::LexError { pos: at(13, 0, 13) })
    );
    assert_eq!(
        parse_kicad_str("Version 300\nWire Wire Line"),
        Err(semantic(at(8, 0, 8), SemanticReason::VersionOutOfRange))
    );
}

#[test]
fn error_reports_its_position() {
    let error = parse_kicad_str("Connection ~ 1 2\r\n\tWire Wire Line\r\n\t1 2 x").unwrap_err();
    assert_eq!(error.position(), at(40, 2, 5));
    assert_eq!(error, syntax(at(40, 2, 5), TokenKind::Word, Expecting::Integer));
    assert_eq!(ParseError::LexError { pos: at(1, 2, 3) }.position(), at(1, 2, 3));
    assert_eq!(semantic(at(4, 5, 6), SemanticReason::InvalidDate).position(), at(4, 5, 6));
}

#[test]
fn expected_token_sets() {
    assert_eq!(
        Expecting::ItemStart.tokens(),
        vec![
            TokenKind::Title,
            TokenKind::Date,
            TokenKind::Version,
            TokenKind::Encoding,
            TokenKind::Connection,
            TokenKind::Wire,
            TokenKind::Text,
            TokenKind::Word,
            TokenKind::LineBreak,
            TokenKind::End,
        ]
    );
    assert_eq!(Expecting::LineEnd.tokens(), vec![TokenKind::LineBreak, TokenKind::End]);
    assert_eq!(Expecting::LineBreak.tokens(), vec![TokenKind::LineBreak]);
    assert_eq!(Expecting::Integer.tokens(), vec![TokenKind::Integer]);
    assert_eq!(Expecting::QuotedString.tokens(), vec![TokenKind::QuotedString]);
    assert_eq!(Expecting::Tilde.tokens(), vec![TokenKind::Tilde]);
    assert_eq!(Expecting::Colon.tokens(), vec![TokenKind::Colon]);
    assert_eq!(Expecting::LineKeyword.tokens(), vec![TokenKind::Line]);
    assert_eq!(
        Expecting::WireKind.tokens(),
        vec![TokenKind::Wire, TokenKind::Bus, TokenKind::Note]
    );
    assert_eq!(Expecting::EncodingName.tokens(), vec![TokenKind::Utf8]);
    assert_eq!(Expecting::Description.tokens(), vec![TokenKind::Word]);
}
