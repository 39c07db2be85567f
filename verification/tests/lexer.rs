use kicad_schema_parser::lexer::{next_lexeme, Cursor, Lexeme};
use kicad_schema_parser::{Keyword, Position, Token, TokenKind};

fn tokens_of(text: &str) -> Vec<Lexeme> {
    let chars: Vec<char> = text.chars().collect();
    let mut out = Vec::new();
    let mut cur = Cursor::start();
    loop {
        let (lexeme, next) = next_lexeme(&chars, cur);
        let last = matches!(lexeme.token, Token::End | Token::Invalid);
        out.push(lexeme);
        if last {
            return out;
        }
        cur = next;
    }
}

fn kinds_of(text: &str) -> Vec<TokenKind> {
    tokens_of(text).iter().map(|lexeme| lexeme.token.kind()).collect()
}

#[test]
fn every_keyword_is_recognised() {
    assert_eq!(
        kinds_of("Title Date Version Encoding UTF8 Connection Wire Bus Note Line Text"),
        vec![
            TokenKind::Title,
            TokenKind::Date,
            TokenKind::Version,
            TokenKind::Encoding,
            TokenKind::Utf8,
            TokenKind::Connection,
            TokenKind::Wire,
            TokenKind::Bus,
            TokenKind::Note,
            TokenKind::Line,
            TokenKind::Text,
            TokenKind::End,
        ]
    );
}

#[test]
fn keywords_are_case_sensitive_and_whole_words() {
    assert_eq!(
        kinds_of("wire WIRE Wires Wire_ _Wire Wire1 utf8"),
        vec![
            TokenKind::Word,
            TokenKind::Word,
            TokenKind::Word,
            TokenKind::Word,
            TokenKind::Word,
            TokenKind::Word,
            TokenKind::Word,
            TokenKind::End,
        ]
    );
}

#[test]
fn tokens_carry_their_content() {
    let tokens: Vec<Token> = tokens_of("R_1:x9 ~ \"a b\" -12 +").into_iter().map(|l| l.token).collect();
    assert_eq!(
        tokens,
        vec![
            Token::Word("R_1".to_string()),
            Token::Colon,
            Token::Word("x9".to_string()),
            Token::Tilde,
            Token::QuotedString("a b".to_string()),
            Token::Integer(Some(-12)),
            Token::Invalid,
        ]
    );
}

#[test]
fn integers_hold_their_value_where_it_fits() {
    let tokens: Vec<Token> =
        tokens_of("0 -0 0042 2147483647 2147483648 -2147483648 -2147483649 18446744073709551616")
            .into_iter()
            .map(|l| l.token)
            .collect();
    assert_eq!(
        tokens,
        vec![
            Token::Integer(Some(0)),
            Token::Integer(Some(0)),
            Token::Integer(Some(42)),
            Token::Integer(Some(2147483647)),
            Token::Integer(None),
            Token::Integer(Some(-2147483648)),
            Token::Integer(None),
            Token::Integer(None),
            Token::End,
        ]
    );
}

#[test]
fn adjacent_tokens_need_no_blank_between_them() {
    let tokens: Vec<Token> = tokens_of("Connection~1-2\"s\"x").into_iter().map(|l| l.token).collect();
    assert_eq!(
        tokens,
        vec![
            Token::Keyword(Keyword::Connection),
            Token::Tilde,
            Token::Integer(Some(1)),
            Token::Integer(Some(-2)),
            Token::QuotedString("s".to_string()),
            Token::Word("x".to_string()),
            Token::End,
        ]
    );
}

#[test]
fn positions_count_lines_and_columns_from_zero() {
    let positions: Vec<Position> =
        tokens_of("Wire Bus\n\t 12 \r\n\n\"é\" x").iter().map(|lexeme| lexeme.pos).collect();
    assert_eq!(
        positions,
        vec![
            Position { offset: 0, line: 0, column: 0 },
            Position { offset: 5, line: 0, column: 5 },
            Position { offset: 8, line: 0, column: 8 },
            Position { offset: 11, line: 1, column: 2 },
            Position { offset: 15, line: 1, column: 6 },
            Position { offset: 16, line: 2, column: 0 },
            Position { offset: 17, line: 3, column: 0 },
            Position { offset: 21, line: 3, column: 4 },
            Position { offset: 22, line: 3, column: 5 },
        ]
    );
}

#[test]
fn cursor_stays_at_an_invalid_token() {
    let chars: Vec<char> = "  ?".chars().collect();
    let (lexeme, next) = next_lexeme(&chars, Cursor::start());
    assert_eq!(lexeme.token, Token::Invalid);
    assert_eq!(lexeme.pos, Position { offset: 2, line: 0, column: 2 });
    assert_eq!(next, Cursor { index: 2, line: 0, line_start: 0 });
    let (again, _) = next_lexeme(&chars, next);
    assert_eq!(again.token, Token::Invalid);
}

#[test]
fn cursor_follows_the_lines() {
    let chars: Vec<char> = "a\n b".chars().collect();
    let (_, after_a) = next_lexeme(&chars, Cursor::start());
    assert_eq!(after_a, Cursor { index: 1, line: 0, line_start: 0 });
    let (line_break, after_break) = next_lexeme(&chars, after_a);
    assert_eq!(line_break.token, Token::LineBreak);
    assert_eq!(after_break, Cursor { index: 2, line: 1, line_start: 2 });
    let (b, after_b) = next_lexeme(&chars, after_break);
    assert_eq!(b.pos, Position { offset: 3, line: 1, column: 1 });
    assert_eq!(after_b, Cursor { index: 4, line: 1, line_start: 2 });
    let (end, at_end) = next_lexeme(&chars, after_b);
    assert_eq!(end.token, Token::End);
    assert_eq!(end.pos, Position { offset: 4, line: 1, column: 2 });
    assert_eq!(at_end, after_b);
}
