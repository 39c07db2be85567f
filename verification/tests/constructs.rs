use kicad_schema_parser::{
    parse_chars, parse_kicad_str, CalendarDate, Component, Connection, Coords, EncodeKind,
    HeaderKind, KiCadSchema, SchemaNode, Text, Wire, WireType,
};

fn connection(x: i32, y: i32) -> SchemaNode {
    SchemaNode::Connection(Connection { pos: Coords { x, y } })
}

fn wire(ty: WireType, x1: i32, y1: i32, x2: i32, y2: i32) -> SchemaNode {
    SchemaNode::Wire(Wire { ty, start: Coords { x: x1, y: y1 }, end: Coords { x: x2, y: y2 } })
}

fn body_only(body: Vec<SchemaNode>) -> KiCadSchema {
    KiCadSchema { headers: Vec::new(), body }
}

#[test]
fn empty_input_is_an_empty_schema() {
    assert_eq!(parse_kicad_str(""), Ok(body_only(Vec::new())));
    assert_eq!(parse_kicad_str(" \t\r\n\n  \n"), Ok(body_only(Vec::new())));
}

#[test]
fn connection_with_negative_coordinates() {
    assert_eq!(parse_kicad_str("Connection ~ -10 -20"), Ok(body_only(vec![connection(-10, -20)])));
}

#[test]
fn connection_at_the_limits_of_the_coordinate_space() {
    assert_eq!(
        parse_kicad_str("Connection ~ -2147483648 2147483647"),
        Ok(body_only(vec![connection(i32::MIN, i32::MAX)]))
    );
    assert_eq!(parse_kicad_str("Connection ~ -0 007"), Ok(body_only(vec![connection(0, 7)])));
}

#[test]
fn title_then_wire() {
    let expected = KiCadSchema {
        headers: vec![HeaderKind::DumpName("MySchema".to_string())],
        body: vec![wire(WireType::Wire, 0, 0, 1, 1)],
    };
    assert_eq!(parse_kicad_str("Title \"MySchema\"\nWire Wire Line\n0 0 1 1"), Ok(expected));
}

#[test]
fn data_line_may_be_indented() {
    let expected = KiCadSchema {
        headers: vec![HeaderKind::DumpName("MySchema".to_string())],
        body: vec![wire(WireType::Wire, 0, 0, 1, 1)],
    };
    assert_eq!(parse_kicad_str("Title \"MySchema\"\nWire Wire Line\n\t0 0 1 1"), Ok(expected));
}

#[test]
fn every_wire_kind() {
    assert_eq!(
        parse_kicad_str("Wire Bus Line\n1 2 3 4\nWire Note Line\n-5 -6 -7 -8\nWire Wire Line\n0 0 0 0"),
        Ok(body_only(vec![
            wire(WireType::Bus, 1, 2, 3, 4),
            wire(WireType::Note, -5, -6, -7, -8),
            wire(WireType::Wire, 0, 0, 0, 0),
        ]))
    );
}

#[test]
fn text_label_with_content() {
    let expected = body_only(vec![SchemaNode::Text(Text {
        pos: Coords { x: 7350, y: -7500 },
        orientation: 0,
        dimension: 50,
        content: "Hello, world: ~ 12".to_string(),
    })]);
    assert_eq!(parse_kicad_str("Text 7350 -7500 0 50\n\"Hello, world: ~ 12\""), Ok(expected));
}

#[test]
fn text_label_may_be_empty() {
    let expected = body_only(vec![SchemaNode::Text(Text {
        pos: Coords { x: 1, y: 2 },
        orientation: 3,
        dimension: 4,
        content: String::new(),
    })]);
    assert_eq!(parse_kicad_str("Text 1 2 3 4\n\"\""), Ok(expected));
}

#[test]
fn text_content_keeps_characters_outside_ascii() {
    let expected = body_only(vec![SchemaNode::Text(Text {
        pos: Coords { x: 0, y: 0 },
        orientation: 0,
        dimension: 0,
        content: "Ω 10 kΩ".to_string(),
    })]);
    assert_eq!(parse_kicad_str("Text 0 0 0 0\n\"Ω 10 kΩ\""), Ok(expected));
}

fn small_resistor() -> KiCadSchema {
    body_only(vec![SchemaNode::Component(Component {
        name: ("Device".to_string(), "R_Small".to_string()),
        pos: Coords { x: 1200, y: 3400 },
    })])
}

#[test]
fn component_name_is_split_at_the_colon() {
    assert_eq!(parse_kicad_str("Device:R_Small\n1200 3400"), Ok(small_resistor()));
    assert_eq!(parse_kicad_str("Device : R_Small\n\t1200 3400\n"), Ok(small_resistor()));
}

#[test]
fn every_header() {
    let expected = KiCadSchema {
        headers: vec![
            HeaderKind::Encoding(EncodeKind::UTF8),
            HeaderKind::DumpVersion(4),
            HeaderKind::DumpName("Main board".to_string()),
            HeaderKind::LastUpdated(CalendarDate { year: 2020, month: 2, day: 29 }),
        ],
        body: Vec::new(),
    };
    assert_eq!(
        parse_kicad_str("Encoding UTF8\nVersion 4\nTitle \"Main board\"\nDate \"2020-02-29\"\n"),
        Ok(expected)
    );
}

#[test]
fn version_covers_a_byte() {
    assert_eq!(
        parse_kicad_str("Version 0\nVersion 255"),
        Ok(KiCadSchema {
            headers: vec![HeaderKind::DumpVersion(0), HeaderKind::DumpVersion(255)],
            body: Vec::new(),
        })
    );
}

#[test]
fn date_is_read_by_the_calendar() {
    assert_eq!(
        parse_kicad_str("Date \"2015-09-05\""),
        Ok(KiCadSchema {
            headers: vec![HeaderKind::LastUpdated(CalendarDate { year: 2015, month: 9, day: 5 })],
            body: Vec::new(),
        })
    );
    assert_eq!(CalendarDate::parse("1999-12-31"), Some(CalendarDate { year: 1999, month: 12, day: 31 }));
    assert_eq!(CalendarDate::parse("1999-13-01"), None);
    assert_eq!(CalendarDate::parse("2021-02-29"), None);
    assert_eq!(CalendarDate::parse("yesterday"), None);
    assert_eq!(CalendarDate::parse(""), None);
}

#[test]
fn fields_that_no_date_has_are_refused() {
    assert_eq!(
        CalendarDate::from_fields(Some((2024, 6, 30))),
        Some(CalendarDate { year: 2024, month: 6, day: 30 })
    );
    assert_eq!(CalendarDate::from_fields(Some((2024, 0, 30))), None);
    assert_eq!(CalendarDate::from_fields(Some((2024, 13, 30))), None);
    assert_eq!(CalendarDate::from_fields(Some((2024, 6, 0))), None);
    assert_eq!(CalendarDate::from_fields(Some((2024, 6, 32))), None);
    assert_eq!(CalendarDate::from_fields(None), None);
}

#[test]
fn headers_and_body_keep_file_order_when_interleaved() {
    let input = "Connection ~ 1 1\n\nTitle \"a\"\r\nWire Bus Line\r\n 2 2 3 3\r\n\n\nVersion 4\nConnection ~ 4 4\n";
    let expected = KiCadSchema {
        headers: vec![HeaderKind::DumpName("a".to_string()), HeaderKind::DumpVersion(4)],
        body: vec![connection(1, 1), wire(WireType::Bus, 2, 2, 3, 3), connection(4, 4)],
    };
    assert_eq!(parse_kicad_str(input), Ok(expected));
}

#[test]
fn parsing_twice_gives_equal_schemas() {
    let input = "Title \"twice\"\nText 1 2 3 4\n\"again\"\nU1:MCU\n5 6\nConnection ~ 7 8";
    let first = parse_kicad_str(input);
    let second = parse_kicad_str(input);
    assert!(first.is_ok());
    assert_eq!(first, second);
    let bad = "Title \"twice\"\nWire Wire Line\n1 2 3";
    assert!(parse_kicad_str(bad).is_err());
    assert_eq!(parse_kicad_str(bad), parse_kicad_str(bad));
}

#[test]
fn characters_and_text_parse_alike() {
    let input = "Wire Note Line\n1 -2 3 -4\nDate \"2001-01-01\"";
    let chars: Vec<char> = input.chars().collect();
    assert_eq!(parse_chars(&chars), parse_kicad_str(input));
}
