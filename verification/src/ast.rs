//! The data model of a parsed schematic: immutable values owned by the
//! [`KiCadSchema`] that a parse returns.
//!
//! Every type that owns text has a mathematical view in which the text is a
//! `Seq<char>`; the contracts of the parser speak of those views.

use vstd::prelude::*;
use crate::date::CalendarDate;

verus! {

/// Co-ordinates of an item inside of the schematic. Either component may be
/// negative.
#[derive(Debug, PartialEq, Eq, Clone, Copy, Structural)]
pub struct Coords {
    pub x: i32,
    pub y: i32,
}

/// The encoding named by the save file.
#[derive(Debug, PartialEq, Eq, Clone, Copy, Structural)]
pub enum EncodeKind {
    UTF8,
}

/// The kind of line drawn between two points.
#[derive(Debug, PartialEq, Eq, Clone, Copy, Structural)]
pub enum WireType {
    Wire,
    Bus,
    Note,
}

/// A junction marker at a single point, written `Connection ~ <x> <y>`.
#[derive(Debug, PartialEq, Eq, Clone, Copy, Structural)]
pub struct Connection {
    pub pos: Coords,
}

/// A line segment, written as a keyword line `Wire <kind> Line` followed by
/// a line of four integers.
#[derive(Debug, PartialEq, Eq, Clone, Copy, Structural)]
pub struct Wire {
    pub ty: WireType,
    pub start: Coords,
    pub end: Coords,
}

/// A text label. `content` may be empty.
#[derive(Debug, PartialEq, Eq)]
pub struct Text {
    pub pos: Coords,
    pub orientation: i32,
    pub dimension: i32,
    pub content: String,
}

/// A placed component. `name` is the pair (identifier, description) that
/// the file writes as `identifier:description`.
#[derive(Debug, PartialEq, Eq)]
pub struct Component {
    pub name: (String, String),
    pub pos: Coords,
}

/// One line of file-level metadata.
#[derive(Debug, PartialEq, Eq)]
pub enum HeaderKind {
    Encoding(EncodeKind),
    DumpVersion(u8),
    DumpName(String),
    LastUpdated(CalendarDate),
}

/// One structural element of the schematic.
#[derive(Debug, PartialEq, Eq)]
pub enum SchemaNode {
    Connection(Connection),
    Component(Component),
    Wire(Wire),
    Text(Text),
}

/// A parsed save file: its metadata and its body, each in file order.
#[derive(Debug, PartialEq, Eq)]
pub struct KiCadSchema {
    pub headers: Vec<HeaderKind>,
    pub body: Vec<SchemaNode>,
}

/// What a [`Text`] is, with its content as a sequence of characters.
pub struct TextView {
    pub pos: Coords,
    pub orientation: i32,
    pub dimension: i32,
    pub content: Seq<char>,
}

/// What a [`Component`] is, with its two names as sequences of characters.
pub struct ComponentView {
    pub name: (Seq<char>, Seq<char>),
    pub pos: Coords,
}

/// What a [`HeaderKind`] is.
pub enum HeaderView {
    Encoding(EncodeKind),
    DumpVersion(u8),
    DumpName(Seq<char>),
    LastUpdated(CalendarDate),
}

/// What a [`SchemaNode`] is.
pub enum NodeView {
    Connection(Connection),
    Component(ComponentView),
    Wire(Wire),
    Text(TextView),
}

/// What a [`KiCadSchema`] is: two sequences, each in file order.
pub struct SchemaView {
    pub headers: Seq<HeaderView>,
    pub body: Seq<NodeView>,
}

impl View for Text {
    type V = TextView;

    open spec fn view(&self) -> TextView {
        TextView {
            pos: self.pos,
            orientation: self.orientation,
            dimension: self.dimension,
            content: self.content@,
        }
    }
}

impl View for Component {
    type V = ComponentView;

    open spec fn view(&self) -> ComponentView {
        ComponentView { name: (self.name.0@, self.name.1@), pos: self.pos }
    }
}

impl View for HeaderKind {
    type V = HeaderView;

    open spec fn view(&self) -> HeaderView {
        match *self {
            HeaderKind::Encoding(kind) => HeaderView::Encoding(kind),
            HeaderKind::DumpVersion(version) => HeaderView::DumpVersion(version),
            HeaderKind::DumpName(name) => HeaderView::DumpName(name@),
            HeaderKind::LastUpdated(date) => HeaderView::LastUpdated(date),
        }
    }
}

impl View for SchemaNode {
    type V = NodeView;

    open spec fn view(&self) -> NodeView {
        match *self {
            SchemaNode::Connection(connection) => NodeView::Connection(connection),
            SchemaNode::Component(component) => NodeView::Component(component@),
            SchemaNode::Wire(wire) => NodeView::Wire(wire),
            SchemaNode::Text(text) => NodeView::Text(text@),
        }
    }
}

impl View for KiCadSchema {
    type V = SchemaView;

    open spec fn view(&self) -> SchemaView {
        SchemaView {
            headers: self.headers@.map_values(|header: HeaderKind| header@),
            body: self.body@.map_values(|node: SchemaNode| node@),
        }
    }
}

impl SchemaView {
    /// The schema of a file that holds nothing.
    pub open spec fn empty() -> SchemaView {
        SchemaView { headers: Seq::empty(), body: Seq::empty() }
    }

    /// This schema with one more header at the end of `headers`.
    pub open spec fn with_header(self, header: HeaderView) -> SchemaView {
        SchemaView { headers: self.headers.push(header), body: self.body }
    }

    /// This schema with one more node at the end of `body`.
    pub open spec fn with_node(self, node: NodeView) -> SchemaView {
        SchemaView { headers: self.headers, body: self.body.push(node) }
    }
}

} // verus!
