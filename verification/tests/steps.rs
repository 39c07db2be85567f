use kicad_schema_parser::grammar::{
    header_of_date, parse_item, parse_step, peek_line, refuse_lexeme, take_coords, take_integer,
    take_kind, take_string, take_wire_type, Item, LineStart, Step,
};
use kicad_schema_parser::lexer::{Cursor, Lexeme};
use kicad_schema_parser::{
    chars_of, CalendarDate, Connection, Coords, Expecting, HeaderKind, ParseError, Position,
    SchemaNode, SemanticReason, Token, TokenKind, WireType,
};

fn at(offset: usize, line: usize, column: usize) -> Position {
    Position { offset, line, column }
}

#[test]
fn chars_of_keeps_every_character() {
    assert_eq!(chars_of(""), Vec::<char>::new());
    assert_eq!(chars_of("a\u{e9}\n~"), vec!['a', '\u{e9}', '\n', '~']);
}

#[test]
fn peek_tells_blank_lines_from_constructs() {
    let chars = chars_of(" \n x");
    assert_eq!(
        peek_line(&chars, Cursor::start()),
        LineStart::Blank(Cursor { index: 2, line: 1, line_start: 2 })
    );
    assert_eq!(peek_line(&chars, Cursor { index: 2, line: 1, line_start: 2 }), LineStart::Item);
    assert_eq!(peek_line(&chars, Cursor { index: 4, line: 1, line_start: 2 }), LineStart::End);
    assert_eq!(peek_line(&chars_of("  \t"), Cursor::start()), LineStart::End);
    assert_eq!(peek_line(&chars_of("$"), Cursor::start()), LineStart::Item);
}

#[test]
fn take_functions_read_one_thing_each() {
    let chars = chars_of("7 -8 \"nine\" Bus ~");
    let start = Cursor::start();
    assert_eq!(take_integer(&chars, start), Ok((7, Cursor { index: 1, ..start })));
    assert_eq!(
        take_coords(&chars, start),
        Ok((Coords { x: 7, y: -8 }, Cursor { index: 4, ..start }))
    );
    assert_eq!(
        take_string(&chars, Cursor { index: 4, ..start }),
        Ok(("nine".to_string(), Cursor { index: 11, ..start }))
    );
    assert_eq!(
        take_wire_type(&chars, Cursor { index: 11, ..start }),
        Ok((WireType::Bus, Cursor { index: 15, ..start }))
    );
    assert_eq!(
        take_kind(&chars, Cursor { index: 15, ..start }, TokenKind::Tilde, Expecting::Tilde),
        Ok(Cursor { index: 17, ..start })
    );
    assert_eq!(
        take_kind(&chars, Cursor { index: 17, ..start }, TokenKind::Tilde, Expecting::Tilde),
        Err(ParseError::SyntaxError {
            pos: at(17, 0, 17),
            found: TokenKind::End,
            expected: Expecting::Tilde
        })
    );
    assert_eq!(
        take_string(&chars, start),
        Err(ParseError::SyntaxError {
            pos: at(0, 0, 0),
            found: TokenKind::Integer,
            expected: Expecting::QuotedString
        })
    );
}

#[test]
fn refusal_of_an_invalid_token_is_a_lex_error() {
    let invalid = Lexeme { token: Token::Invalid, pos: at(3, 1, 2) };
    assert_eq!(refuse_lexeme(&invalid, Expecting::Integer), ParseError::LexError { pos: at(3, 1, 2) });
    let word = Lexeme { token: Token::Word("w".to_string()), pos: at(3, 1, 2) };
    assert_eq!(
        refuse_lexeme(&word, Expecting::Integer),
        ParseError::SyntaxError { pos: at(3, 1, 2), found: TokenKind::Word, expected: Expecting::Integer }
    );
}

#[test]
fn header_of_a_date_or_its_error() {
    let date = CalendarDate { year: 2012, month: 11, day: 15 };
    assert_eq!(header_of_date(Some(date), at(5, 0, 5)), Ok(HeaderKind::LastUpdated(date)));
    assert_eq!(
        header_of_date(None, at(5, 0, 5)),
        Err(ParseError::SemanticError { pos: at(5, 0, 5), reason: SemanticReason::InvalidDate })
    );
}

#[test]
fn item_is_read_up_to_its_last_token() {
    let chars = chars_of("Connection ~ 1 2 trailing");
    assert_eq!(
        parse_item(&chars, Cursor::start()),
        Ok((
            Item::Node(SchemaNode::Connection(Connection { pos: Coords { x: 1, y: 2 } })),
            Cursor { index: 16, line: 0, line_start: 0 }
        ))
    );
}

#[test]
fn steps_walk_through_the_lines() {
    let chars = chars_of("\nVersion 4\nConnection ~ 1 2");
    let first = parse_step(&chars, Cursor::start());
    let after_blank = Cursor { index: 1, line: 1, line_start: 1 };
    assert_eq!(first, Step::Go(None, after_blank));
    let second = parse_step(&chars, after_blank);
    let after_version = Cursor { index: 11, line: 2, line_start: 11 };
    assert_eq!(second, Step::Go(Some(Item::Header(HeaderKind::DumpVersion(4))), after_version));
    assert_eq!(
        parse_step(&chars, after_version),
        Step::Stop(Some(Item::Node(SchemaNode::Connection(Connection {
            pos: Coords { x: 1, y: 2 }
        }))))
    );
    assert_eq!(
        parse_step(&chars, Cursor { index: 27, line: 2, line_start: 11 }),
        Step::Stop(None)
    );
    assert_eq!(
        parse_step(&chars_of("Version 4 5"), Cursor::start()),
        Step::Fail(ParseError::SyntaxError {
            pos: at(10, 0, 10),
            found: TokenKind::Integer,
            expected: Expecting::LineEnd
        })
    );
}
