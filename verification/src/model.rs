//! The mathematical values that the parser's contracts speak of: what a
//! widget, an event or a type path is, with texts as character sequences and
//! tables as sequences of key/value pairs.
use vstd::prelude::*;

verus! {

/// Why a view could not be read. Each variant stands for one way the view
/// text breaks the grammar.
#[derive(Clone, Copy, PartialEq, Eq, Debug, Structural)]
pub enum ViewError {
    /// A token was needed where the view (or a group) ends.
    UnexpectedEnd,
    /// An identifier was expected.
    ExpectedIdent,
    /// A widget type (a qualified name that does not end in a lowercase
    /// segment) was expected.
    ExpectedQualifiedName,
    /// A widget's body `{ ... }` was expected.
    ExpectedBrace,
    /// In a gtk widget's body, a property name was followed by something
    /// other than `:`, `.`, `(` or `=>`.
    ExpectedColonOrParen,
    /// In a relm widget's body, a property name was followed by something
    /// other than `:`, `.`, `(` or `=>`.
    ExpectedColonArrowOrParen,
    /// An event handler lacks its `=>`.
    ExpectedFatArrow,
    /// A `(model, message)` event value lacks its `,`.
    ExpectedComma,
    /// A parameter list of an event holds a delimited group.
    ExpectedToken,
    /// A construct property lacks the `:` after its name.
    ExpectedColon,
    /// A piece of the view that must be a Rust expression is not one.
    InvalidExpression,
    /// A widget type path has no segment.
    EmptyPath,
    /// The last segment of a widget type path is empty.
    EmptySegment,
    /// More widgets of one kind were named than the counter can count.
    NameCounterOverflow,
}

/// A table: key/value pairs, no key twice, in the order keys were added.
pub type TableModel<K, V> = Seq<(K, V)>;

/// The value that an event handler produces.
pub enum EventValueReturnModel {
    /// `return value`
    CallReturn(Seq<char>),
    /// `(value, message)`
    Return(Seq<char>, Seq<char>),
    /// a message alone
    WithoutReturn(Seq<char>),
}

/// Where the message of an event handler goes.
pub enum EventValueModel {
    CurrentWidget(EventValueReturnModel),
    ForeignWidget(Seq<char>, EventValueReturnModel),
}

pub struct EventModel {
    pub is_async: bool,
    pub params: Seq<Seq<char>>,
    pub use_self: bool,
    pub value: EventValueModel,
}

/// A widget type: the path's text and its segments' identifiers.
pub struct PathModel {
    pub text: Seq<char>,
    pub segments: Seq<Seq<char>>,
}

pub struct GtkWidgetModel {
    pub construct_properties: TableModel<Seq<char>, Seq<char>>,
    pub events: TableModel<Seq<char>, EventModel>,
    pub relm_name: Option<Seq<char>>,
    pub save: bool,
}

pub struct RelmWidgetModel {
    pub events: TableModel<Seq<char>, Seq<EventModel>>,
    pub gtk_events: TableModel<Seq<char>, EventModel>,
}

pub enum EitherWidgetModel {
    Gtk(GtkWidgetModel),
    Relm(RelmWidgetModel),
}

pub struct WidgetModel {
    pub child_events: TableModel<(Seq<char>, Seq<char>), EventModel>,
    pub child_properties: TableModel<Seq<char>, Seq<char>>,
    pub children: Seq<WidgetModel>,
    pub container_type: Option<Option<Seq<char>>>,
    pub init_parameters: Seq<Seq<char>>,
    pub name: Seq<char>,
    pub parent_id: Option<Seq<char>>,
    pub properties: TableModel<Seq<char>, Seq<char>>,
    pub typ: PathModel,
    pub widget: EitherWidgetModel,
}

} // verus!
