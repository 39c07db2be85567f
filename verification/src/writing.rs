//! How values are written in a save file, and what the lexer reads where
//! such a writing stands.

use vstd::prelude::*;
use crate::ast::{Coords, Wire, WireType};
use crate::lexer::{digits_value, first_tokens, place_after, run_end, scan, CharClass, Scan};
use crate::token::{
    digit_value, is_blank, is_digit, is_word_char, is_word_start, keyword_of, Keyword, TokenView,
};

verus! {

/// The character that writes a digit.
pub open spec fn digit_char(digit: nat) -> char
    recommends
        digit < 10,
{
    seq!['0', '1', '2', '3', '4', '5', '6', '7', '8', '9'][digit as int]
}

/// The shortest decimal writing of a natural number.
pub open spec fn decimal(n: nat) -> Seq<char>
    decreases n,
{
    if n < 10 {
        seq![digit_char(n)]
    } else {
        decimal(n / 10).push(digit_char(n % 10))
    }
}

/// The decimal writing of an integer, with `-` before a negative one.
pub open spec fn integer_text(value: int) -> Seq<char> {
    if value < 0 {
        seq!['-'] + decimal((-value) as nat)
    } else {
        decimal(value as nat)
    }
}

/// `piece` stands in `text` at the place `at`.
pub open spec fn holds_at(text: Seq<char>, at: int, piece: Seq<char>) -> bool {
    &&& 0 <= at
    &&& at + piece.len() <= text.len()
    &&& text.subrange(at, at + piece.len()) == piece
}

/// A token ends at `at`: the text ends there, or a character stands there
/// that continues neither a word nor a number.
pub open spec fn breaks_at(text: Seq<char>, at: int) -> bool {
    at == text.len() || (0 <= at < text.len() && !is_word_char(text[at]))
}

/// Where a piece stands, its characters are the characters of the text.
pub proof fn lemma_holds_at(text: Seq<char>, at: int, piece: Seq<char>)
    requires
        holds_at(text, at, piece),
    ensures
        forall|j: int| 0 <= j < piece.len() ==> #[trigger] text[at + j] == piece[j],
{
    assert forall|j: int| 0 <= j < piece.len() implies #[trigger] text[at + j] == piece[j] by {
        assert(text.subrange(at, at + piece.len())[j] == text[at + j]);
    }
}

/// The decimal writing of a number is made of digits, at least one, and
/// writes that number.
pub proof fn lemma_decimal(n: nat)
    ensures
        decimal(n).len() >= 1,
        forall|j: int| 0 <= j < decimal(n).len() ==> is_digit(#[trigger] decimal(n)[j]),
        digits_value(decimal(n)) == n,
    decreases n,
{
    if n < 10 {
        assert(decimal(n).drop_last() =~= Seq::<char>::empty());
        assert(digits_value(decimal(n).drop_last()) == 0);
        assert(digit_value(digit_char(n)) == n);
    } else {
        lemma_decimal(n / 10);
        assert(decimal(n).drop_last() =~= decimal(n / 10));
        assert(is_digit(digit_char(n % 10)));
        assert(digit_value(digit_char(n % 10)) == n % 10);
    }
}

/// A run that is known to be of the class up to `end`, and not beyond, ends
/// at `end`.
pub proof fn lemma_run_exact(text: Seq<char>, at: int, end: int, class: CharClass)
    requires
        0 <= at <= end <= text.len(),
        forall|j: int| at <= j < end ==> class.holds(#[trigger] text[j]),
        end == text.len() || !class.holds(text[end]),
    ensures
        run_end(text, at, class) == end,
    decreases end - at,
{
    if at < end {
        lemma_run_exact(text, at + 1, end, class);
    }
}

/// Blanks before a token do not change what is read.
pub proof fn lemma_skip_blanks(text: Seq<char>, at: int, start: int)
    requires
        0 <= at <= start <= text.len(),
        forall|j: int| at <= j < start ==> is_blank(#[trigger] text[j]),
        start == text.len() || !is_blank(text[start]),
    ensures
        scan(text, at) == scan(text, start),
{
    lemma_run_exact(text, at, start, CharClass::Blank);
    lemma_run_exact(text, start, start, CharClass::Blank);
}

/// Every keyword is the keyword that its spelling spells.
pub proof fn lemma_keyword_of_spelling(keyword: Keyword)
    ensures
        keyword_of(keyword.spelling()) == Some(keyword),
        keyword.spelling().len() >= 3,
        is_word_start(keyword.spelling()[0]),
        forall|j: int|
            0 <= j < keyword.spelling().len() ==> is_word_char(#[trigger] keyword.spelling()[j]),
{
    let spelling = keyword.spelling();
    assert(Keyword::Title.spelling().len() == 5 && Keyword::Title.spelling()[0] == 'T');
    assert(Keyword::Date.spelling().len() == 4 && Keyword::Date.spelling()[0] == 'D');
    assert(Keyword::Version.spelling().len() == 7 && Keyword::Version.spelling()[0] == 'V');
    assert(Keyword::Encoding.spelling().len() == 8 && Keyword::Encoding.spelling()[0] == 'E');
    assert(Keyword::Utf8.spelling().len() == 4 && Keyword::Utf8.spelling()[0] == 'U');
    assert(Keyword::Connection.spelling().len() == 10 && Keyword::Connection.spelling()[0] == 'C');
    assert(Keyword::Wire.spelling().len() == 4 && Keyword::Wire.spelling()[0] == 'W');
    assert(Keyword::Bus.spelling().len() == 3 && Keyword::Bus.spelling()[0] == 'B');
    assert(Keyword::Note.spelling().len() == 4 && Keyword::Note.spelling()[0] == 'N');
    assert(Keyword::Line.spelling().len() == 4 && Keyword::Line.spelling()[0] == 'L');
    assert(Keyword::Text.spelling().len() == 4 && Keyword::Text.spelling()[0] == 'T');
}

/// Where the spelling of a keyword stands and a token ends behind it, the
/// keyword is read.
pub proof fn lemma_scan_keyword(text: Seq<char>, at: int, keyword: Keyword)
    requires
        holds_at(text, at, keyword.spelling()),
        breaks_at(text, at + keyword.spelling().len()),
    ensures
        scan(text, at) == (Scan {
            token: TokenView::Keyword(keyword),
            start: at,
            end: at + keyword.spelling().len(),
        }),
{
    let spelling = keyword.spelling();
    let end = at + spelling.len();
    lemma_keyword_of_spelling(keyword);
    lemma_holds_at(text, at, spelling);
    assert(text[at + 0] == spelling[0]);
    assert forall|j: int| at <= j < end implies CharClass::Word.holds(#[trigger] text[j]) by {
        assert(text[at + (j - at)] == spelling[j - at]);
    }
    lemma_run_exact(text, at, end, CharClass::Word);
    lemma_run_exact(text, at, at, CharClass::Blank);
}

/// Where the decimal writing of a number that fits in 32 bits stands and a
/// token ends behind it, that number is read.
pub proof fn lemma_scan_integer(text: Seq<char>, at: int, value: i32)
    requires
        holds_at(text, at, integer_text(value as int)),
        breaks_at(text, at + integer_text(value as int).len()),
    ensures
        scan(text, at) == (Scan {
            token: TokenView::Integer(Some(value)),
            start: at,
            end: at + integer_text(value as int).len(),
        }),
{
    let written = integer_text(value as int);
    let end = at + written.len();
    lemma_holds_at(text, at, written);
    if value < 0 {
        let magnitude = (-value) as nat;
        let digits = decimal(magnitude);
        lemma_decimal(magnitude);
        assert(text[at + 0] == written[0]);
        assert forall|j: int| at + 1 <= j < end implies CharClass::Digit.holds(
            #[trigger] text[j],
        ) by {
            assert(text[at + (j - at)] == written[j - at]);
            assert(written[j - at] == digits[j - at - 1]);
        }
        assert(text[at + 1] == digits[0]);
        lemma_run_exact(text, at + 1, end, CharClass::Digit);
        lemma_run_exact(text, at, at, CharClass::Blank);
        assert forall|j: int| 0 <= j < digits.len() implies text.subrange(at + 1, end)[j]
            == digits[j] by {
            assert(text[at + (j + 1)] == written[j + 1]);
        }
        assert(text.subrange(at + 1, end) =~= digits);
    } else {
        let digits = decimal(value as nat);
        lemma_decimal(value as nat);
        assert(text[at + 0] == written[0]);
        assert forall|j: int| at <= j < end implies CharClass::Digit.holds(#[trigger] text[j]) by {
            assert(text[at + (j - at)] == written[j - at]);
        }
        lemma_run_exact(text, at, end, CharClass::Digit);
        lemma_run_exact(text, at, at, CharClass::Blank);
        assert(text.subrange(at, end) =~= digits);
    }
}

/// The keyword that writes a wire kind.
pub open spec fn wire_keyword(ty: WireType) -> Keyword {
    match ty {
        WireType::Wire => Keyword::Wire,
        WireType::Bus => Keyword::Bus,
        WireType::Note => Keyword::Note,
    }
}

/// A connection line as it is usually written: `Connection ~ x y`, with
/// one space between the tokens.
pub open spec fn connection_text(x: i32, y: i32) -> Seq<char> {
    Keyword::Connection.spelling() + seq![' ', '~', ' '] + integer_text(x as int) + seq![' ']
        + integer_text(y as int)
}

/// A wire's keyword line as it is usually written: `Wire <kind> Line`.
pub open spec fn wire_line_text(ty: WireType) -> Seq<char> {
    Keyword::Wire.spelling() + seq![' '] + wire_keyword(ty).spelling() + seq![' ']
        + Keyword::Line.spelling()
}

/// A pair of co-ordinates as it is usually written: `x y`.
pub open spec fn coords_text(coords: Coords) -> Seq<char> {
    integer_text(coords.x as int) + seq![' '] + integer_text(coords.y as int)
}

/// A wire as it is usually written: its keyword line, and on the next line
/// its two ends.
pub open spec fn wire_text(wire: Wire) -> Seq<char> {
    wire_line_text(wire.ty) + seq!['\n'] + coords_text(wire.start) + seq![' '] + coords_text(
        wire.end,
    )
}

/// The four tokens of a connection line.
pub open spec fn connection_tokens(x: i32, y: i32) -> Seq<TokenView> {
    seq![
        TokenView::Keyword(Keyword::Connection),
        TokenView::Tilde,
        TokenView::Integer(Some(x)),
        TokenView::Integer(Some(y)),
    ]
}

/// The three tokens of a wire's keyword line.
pub open spec fn wire_line_tokens(ty: WireType) -> Seq<TokenView> {
    seq![
        TokenView::Keyword(Keyword::Wire),
        TokenView::Keyword(wire_keyword(ty)),
        TokenView::Keyword(Keyword::Line),
    ]
}

/// The eight tokens of a wire: its keyword line, the line break, and the
/// four numbers of its two ends.
pub open spec fn wire_tokens(wire: Wire) -> Seq<TokenView> {
    wire_line_tokens(wire.ty) + seq![
        TokenView::LineBreak,
        TokenView::Integer(Some(wire.start.x)),
        TokenView::Integer(Some(wire.start.y)),
        TokenView::Integer(Some(wire.end.x)),
        TokenView::Integer(Some(wire.end.y)),
    ]
}

/// A piece between a prefix and a suffix stands behind the prefix, and the
/// suffix starts behind the piece.
pub proof fn lemma_piece(text: Seq<char>, prefix: Seq<char>, piece: Seq<char>, suffix: Seq<char>)
    requires
        text == prefix + piece + suffix,
    ensures
        holds_at(text, prefix.len() as int, piece),
        text.len() == prefix.len() + piece.len() + suffix.len(),
        suffix.len() > 0 ==> text[(prefix.len() + piece.len()) as int] == suffix[0],
{
    assert(text.subrange(prefix.len() as int, (prefix.len() + piece.len()) as int) =~= piece);
}

/// The writing of an integer starts with a digit or with `-`, and holds at
/// least one character.
pub proof fn lemma_integer_text(value: int)
    ensures
        integer_text(value).len() >= 1,
        is_digit(integer_text(value)[0]) || integer_text(value)[0] == '-',
{
    if value < 0 {
        lemma_decimal((-value) as nat);
    } else {
        lemma_decimal(value as nat);
    }
}

/// Behind one space, the keyword that is written there is read.
pub proof fn lemma_scan_spaced_keyword(text: Seq<char>, at: int, keyword: Keyword)
    requires
        0 <= at < text.len(),
        text[at] == ' ',
        holds_at(text, at + 1, keyword.spelling()),
        breaks_at(text, at + 1 + keyword.spelling().len()),
    ensures
        scan(text, at) == (Scan {
            token: TokenView::Keyword(keyword),
            start: at + 1,
            end: at + 1 + keyword.spelling().len(),
        }),
{
    lemma_keyword_of_spelling(keyword);
    lemma_holds_at(text, at + 1, keyword.spelling());
    assert(text[at + 1 + 0] == keyword.spelling()[0]);
    lemma_skip_blanks(text, at, at + 1);
    lemma_scan_keyword(text, at + 1, keyword);
}

/// Behind one space, the integer that is written there is read.
pub proof fn lemma_scan_spaced_integer(text: Seq<char>, at: int, value: i32)
    requires
        0 <= at < text.len(),
        text[at] == ' ',
        holds_at(text, at + 1, integer_text(value as int)),
        breaks_at(text, at + 1 + integer_text(value as int).len()),
    ensures
        scan(text, at) == (Scan {
            token: TokenView::Integer(Some(value)),
            start: at + 1,
            end: at + 1 + integer_text(value as int).len(),
        }),
{
    lemma_integer_text(value as int);
    lemma_holds_at(text, at + 1, integer_text(value as int));
    assert(text[at + 1 + 0] == integer_text(value as int)[0]);
    lemma_skip_blanks(text, at, at + 1);
    lemma_scan_integer(text, at + 1, value);
}

/// Where the pieces of a connection line stand in a text.
pub open spec fn is_connection_layout(text: Seq<char>, x: i32, y: i32) -> bool {
    let after_x: int = 13 + integer_text(x as int).len() as int;
    &&& holds_at(text, 0, Keyword::Connection.spelling())
    &&& text.len() == after_x + 1 + integer_text(y as int).len()
    &&& text[10] == ' '
    &&& text[11] == '~'
    &&& text[12] == ' '
    &&& holds_at(text, 13, integer_text(x as int))
    &&& text[after_x] == ' '
    &&& holds_at(text, after_x + 1, integer_text(y as int))
}

/// A connection line as it is usually written has its pieces in their
/// places.
pub proof fn lemma_connection_layout(x: i32, y: i32)
    ensures
        is_connection_layout(connection_text(x, y), x, y),
{
    let text = connection_text(x, y);
    let keyword = Keyword::Connection.spelling();
    let tilde = seq![' ', '~', ' '];
    let sx = integer_text(x as int);
    let sy = integer_text(y as int);
    let space = seq![' '];
    assert(keyword.len() == 10);
    assert(text =~= Seq::<char>::empty() + keyword + (tilde + sx + space + sy));
    lemma_piece(text, Seq::empty(), keyword, tilde + sx + space + sy);
    assert(text =~= (keyword + tilde) + sx + (space + sy));
    lemma_piece(text, keyword + tilde, sx, space + sy);
    assert(text =~= (keyword + tilde + sx + space) + sy + Seq::<char>::empty());
    lemma_piece(text, keyword + tilde + sx + space, sy, Seq::empty());
}

/// The tokens of a text that has the pieces of a connection line in their
/// places.
pub proof fn lemma_connection_scans(text: Seq<char>, x: i32, y: i32)
    requires
        is_connection_layout(text, x, y),
    ensures
        first_tokens(text, 0, 5) == connection_tokens(x, y).push(TokenView::End),
{
    let after_x: int = 13 + integer_text(x as int).len() as int;
    let end = text.len() as int;
    lemma_integer_text(x as int);
    lemma_integer_text(y as int);
    assert(Keyword::Connection.spelling().len() == 10);
    assert(scan(text, 0).token == TokenView::Keyword(Keyword::Connection) && scan(text, 0).end
        == 10) by {
        lemma_scan_keyword(text, 0, Keyword::Connection);
    }
    assert(scan(text, 10).token == TokenView::Tilde && scan(text, 10).end == 12) by {
        lemma_skip_blanks(text, 10, 11);
        lemma_run_exact(text, 11, 11, CharClass::Blank);
    }
    assert(scan(text, 12).token == TokenView::Integer(Some(x)) && scan(text, 12).end == after_x)
        by {
        lemma_scan_spaced_integer(text, 12, x);
    }
    assert(scan(text, after_x).token == TokenView::Integer(Some(y)) && scan(text, after_x).end
        == end) by {
        lemma_scan_spaced_integer(text, after_x, y);
    }
    assert(scan(text, end).token == TokenView::End) by {
        lemma_run_exact(text, end, end, CharClass::Blank);
    }
    assert(place_after(text, 0, 0) == 0);
    assert(place_after(text, 0, 1) == 10);
    assert(place_after(text, 0, 2) == 12);
    assert(place_after(text, 0, 3) == after_x);
    assert(place_after(text, 0, 4) == end);
    assert(first_tokens(text, 0, 5) =~= connection_tokens(x, y).push(TokenView::End));
}

/// Where the pieces of a wire's keyword line stand at the start of a text,
/// with the end of a token behind them.
pub open spec fn is_wire_line_layout(text: Seq<char>, ty: WireType) -> bool {
    let after_kind: int = 5 + wire_keyword(ty).spelling().len() as int;
    &&& holds_at(text, 0, Keyword::Wire.spelling())
    &&& text[4] == ' '
    &&& holds_at(text, 5, wire_keyword(ty).spelling())
    &&& text[after_kind] == ' '
    &&& holds_at(text, after_kind + 1, Keyword::Line.spelling())
    &&& breaks_at(text, after_kind + 5)
}

/// Where the two numbers of a pair of co-ordinates stand in a text, from
/// `at` on.
pub open spec fn is_coords_layout(text: Seq<char>, at: int, coords: Coords) -> bool {
    let after_x: int = at + integer_text(coords.x as int).len() as int;
    &&& holds_at(text, at, integer_text(coords.x as int))
    &&& text[after_x] == ' '
    &&& holds_at(text, after_x + 1, integer_text(coords.y as int))
}

/// Where the pieces of a wire stand in a text that holds nothing else.
pub open spec fn is_wire_layout(text: Seq<char>, wire: Wire) -> bool {
    let line_end: int = wire_line_text(wire.ty).len() as int;
    let after_start: int = line_end + 1 + coords_text(wire.start).len() as int;
    &&& is_wire_line_layout(text, wire.ty)
    &&& text[line_end] == '\n'
    &&& is_coords_layout(text, line_end + 1, wire.start)
    &&& text[after_start] == ' '
    &&& is_coords_layout(text, after_start + 1, wire.end)
    &&& text.len() == after_start + 1 + coords_text(wire.end).len()
}

/// The keyword line of a wire has 10 characters and those of its kind.
pub proof fn lemma_wire_line_len(ty: WireType)
    ensures
        wire_line_text(ty).len() == 10 + wire_keyword(ty).spelling().len(),
        Keyword::Wire.spelling().len() == 4,
        Keyword::Line.spelling().len() == 4,
{
}

/// A pair of co-ordinates between a prefix and a suffix has its numbers in
/// their places.
pub proof fn lemma_coords_layout(
    text: Seq<char>,
    prefix: Seq<char>,
    coords: Coords,
    suffix: Seq<char>,
)
    requires
        text == prefix + coords_text(coords) + suffix,
    ensures
        is_coords_layout(text, prefix.len() as int, coords),
{
    let sx = integer_text(coords.x as int);
    let sy = integer_text(coords.y as int);
    let space = seq![' '];
    assert(text =~= prefix + sx + (space + sy + suffix));
    lemma_piece(text, prefix, sx, space + sy + suffix);
    assert(text =~= (prefix + sx + space) + sy + suffix);
    lemma_piece(text, prefix + sx + space, sy, suffix);
}

/// A wire's keyword line before a suffix that starts with no word
/// character has its pieces in their places.
pub proof fn lemma_wire_line_layout(text: Seq<char>, ty: WireType, suffix: Seq<char>)
    requires
        text == wire_line_text(ty) + suffix,
        suffix.len() > 0 ==> !is_word_char(suffix[0]),
    ensures
        is_wire_line_layout(text, ty),
{
    let wire = Keyword::Wire.spelling();
    let kind = wire_keyword(ty).spelling();
    let line = Keyword::Line.spelling();
    let space = seq![' '];
    lemma_wire_line_len(ty);
    assert(text =~= Seq::<char>::empty() + wire + (space + kind + space + line + suffix));
    lemma_piece(text, Seq::empty(), wire, space + kind + space + line + suffix);
    assert(text =~= (wire + space) + kind + (space + line + suffix));
    lemma_piece(text, wire + space, kind, space + line + suffix);
    assert(text =~= (wire + space + kind + space) + line + suffix);
    lemma_piece(text, wire + space + kind + space, line, suffix);
}

/// A wire as it is usually written has its pieces in their places.
pub proof fn lemma_wire_layout(wire: Wire)
    ensures
        is_wire_layout(wire_text(wire), wire),
{
    let text = wire_text(wire);
    let line = wire_line_text(wire.ty);
    let start = coords_text(wire.start);
    let end = coords_text(wire.end);
    let space = seq![' '];
    let line_break = seq!['\n'];
    assert(text =~= line + (line_break + start + space + end));
    lemma_wire_line_layout(text, wire.ty, line_break + start + space + end);
    assert(text =~= (line + line_break) + start + (space + end));
    lemma_coords_layout(text, line + line_break, wire.start, space + end);
    assert(text =~= (line + line_break + start + space) + end + Seq::<char>::empty());
    lemma_coords_layout(text, line + line_break + start + space, wire.end, Seq::empty());
}

/// The tokens of a text that starts with the pieces of a wire's keyword
/// line, and the place behind them.
pub proof fn lemma_wire_line_scans(text: Seq<char>, ty: WireType)
    requires
        is_wire_line_layout(text, ty),
    ensures
        first_tokens(text, 0, 3) == wire_line_tokens(ty),
        place_after(text, 0, 3) == wire_line_text(ty).len(),
{
    let kind = wire_keyword(ty);
    let after_kind: int = 5 + kind.spelling().len() as int;
    lemma_wire_line_len(ty);
    lemma_keyword_of_spelling(kind);
    assert(scan(text, 0).token == TokenView::Keyword(Keyword::Wire) && scan(text, 0).end == 4) by {
        lemma_scan_keyword(text, 0, Keyword::Wire);
    }
    assert(scan(text, 4).token == TokenView::Keyword(kind) && scan(text, 4).end == after_kind)
        by {
        lemma_scan_spaced_keyword(text, 4, kind);
    }
    assert(scan(text, after_kind).token == TokenView::Keyword(Keyword::Line) && scan(
        text,
        after_kind,
    ).end == after_kind + 5) by {
        lemma_scan_spaced_keyword(text, after_kind, Keyword::Line);
    }
    assert(place_after(text, 0, 0) == 0);
    assert(place_after(text, 0, 1) == 4);
    assert(place_after(text, 0, 2) == after_kind);
    assert(place_after(text, 0, 3) == after_kind + 5);
    assert(first_tokens(text, 0, 3) =~= wire_line_tokens(ty));
}

/// The two integers that are read where a pair of co-ordinates stands with
/// the end of a token behind it, and the place behind them.
pub proof fn lemma_coords_scans(text: Seq<char>, at: int, coords: Coords)
    requires
        is_coords_layout(text, at, coords),
        breaks_at(text, at + coords_text(coords).len()),
    ensures
        scan(text, at).token == TokenView::Integer(Some(coords.x)),
        scan(text, scan(text, at).end).token == TokenView::Integer(Some(coords.y)),
        scan(text, scan(text, at).end).end == at + coords_text(coords).len(),
{
    let after_x: int = at + integer_text(coords.x as int).len() as int;
    lemma_integer_text(coords.x as int);
    lemma_integer_text(coords.y as int);
    lemma_scan_integer(text, at, coords.x);
    lemma_scan_spaced_integer(text, after_x, coords.y);
}

/// The tokens of a text that has the pieces of a wire in their places.
pub proof fn lemma_wire_scans(text: Seq<char>, wire: Wire)
    requires
        is_wire_layout(text, wire),
    ensures
        first_tokens(text, 0, 9) == wire_tokens(wire).push(TokenView::End),
{
    let line_end: int = wire_line_text(wire.ty).len() as int;
    let after_start: int = line_end + 1 + coords_text(wire.start).len() as int;
    let end = text.len() as int;
    lemma_wire_line_scans(text, wire.ty);
    assert(first_tokens(text, 0, 3)[0] == wire_line_tokens(wire.ty)[0]);
    assert(first_tokens(text, 0, 3)[1] == wire_line_tokens(wire.ty)[1]);
    assert(first_tokens(text, 0, 3)[2] == wire_line_tokens(wire.ty)[2]);
    let start_at = line_end + 1;
    assert(scan(text, line_end).token == TokenView::LineBreak && scan(text, line_end).end == start_at)
        by {
        lemma_run_exact(text, line_end, line_end, CharClass::Blank);
    }
    lemma_coords_scans(text, start_at, wire.start);
    let after_start_x = scan(text, start_at).end;
    assert(scan(text, after_start) == scan(text, after_start + 1)) by {
        lemma_integer_text(wire.end.x as int);
        lemma_holds_at(text, after_start + 1, integer_text(wire.end.x as int));
        assert(text[after_start + 1 + 0] == integer_text(wire.end.x as int)[0]);
        lemma_skip_blanks(text, after_start, after_start + 1);
    }
    lemma_coords_scans(text, after_start + 1, wire.end);
    let after_end_x = scan(text, after_start).end;
    assert(scan(text, end).token == TokenView::End) by {
        lemma_run_exact(text, end, end, CharClass::Blank);
    }
    assert(place_after(text, 0, 4) == start_at);
    assert(place_after(text, 0, 5) == after_start_x);
    assert(place_after(text, 0, 6) == after_start);
    assert(place_after(text, 0, 7) == after_end_x);
    assert(place_after(text, 0, 8) == end);
    assert(first_tokens(text, 0, 9) =~= wire_tokens(wire).push(TokenView::End));
}

/// At the end of a text the end is read.
pub proof fn lemma_scan_end(text: Seq<char>)
    ensures
        scan(text, text.len() as int) == (Scan {
            token: TokenView::End,
            start: text.len() as int,
            end: text.len() as int,
        }),
{
    lemma_run_exact(text, text.len() as int, text.len() as int, CharClass::Blank);
}

/// The tokens of a wire's keyword line that stands alone, and the place
/// behind them: the end of the text.
pub proof fn lemma_wire_line_alone(ty: WireType)
    ensures
        first_tokens(wire_line_text(ty), 0, 3) == wire_line_tokens(ty),
        place_after(wire_line_text(ty), 0, 3) == wire_line_text(ty).len(),
{
    let text = wire_line_text(ty);
    assert(text =~= text + Seq::<char>::empty());
    lemma_wire_line_layout(text, ty, Seq::empty());
    lemma_wire_line_scans(text, ty);
}

} // verus!
