//! The widget tree that a view describes, and the mathematical value of each
//! of its parts.
use vstd::prelude::*;

use crate::model::{
    EitherWidgetModel, EventModel, EventValueModel, EventValueReturnModel, GtkWidgetModel, PathModel,
    RelmWidgetModel, WidgetModel,
};
use crate::table::Table;

verus! {

/// The value that an event handler produces, as source text.
#[derive(Debug)]
pub enum EventValueReturn {
    /// `return value`: the handler returns the value.
    CallReturn(String),
    /// `(value, message)`: the handler returns the value and sends the message.
    Return(String, String),
    /// The handler sends the message.
    WithoutReturn(String),
}

impl DeepView for EventValueReturn {
    type V = EventValueReturnModel;

    open spec fn deep_view(&self) -> EventValueReturnModel {
        match self {
            EventValueReturn::CallReturn(v) => EventValueReturnModel::CallReturn(v@),
            EventValueReturn::Return(v, m) => EventValueReturnModel::Return(v@, m@),
            EventValueReturn::WithoutReturn(m) => EventValueReturnModel::WithoutReturn(m@),
        }
    }
}

/// Where the message of an event handler goes.
#[derive(Debug)]
pub enum EventValue {
    /// To the widget that owns the view.
    CurrentWidget(EventValueReturn),
    /// To the named widget.
    ForeignWidget(String, EventValueReturn),
}

impl DeepView for EventValue {
    type V = EventValueModel;

    open spec fn deep_view(&self) -> EventValueModel {
        match self {
            EventValue::CurrentWidget(r) => EventValueModel::CurrentWidget(r.deep_view()),
            EventValue::ForeignWidget(w, r) => EventValueModel::ForeignWidget(w@, r.deep_view()),
        }
    }
}

/// An event handler.
#[derive(Debug)]
pub struct Event {
    /// Whether the handler was marked `#[async]`.
    pub is_async: bool,
    /// The names of the handler's parameters.
    pub params: Vec<String>,
    /// Whether the handler's value uses `self`.
    pub use_self: bool,
    pub value: EventValue,
}

impl DeepView for Event {
    type V = EventModel;

    open spec fn deep_view(&self) -> EventModel {
        EventModel {
            is_async: self.is_async,
            params: self.params.deep_view(),
            use_self: self.use_self,
            value: self.value.deep_view(),
        }
    }
}

impl Event {
    /// An event with the parameter `_` that sends an empty message to the
    /// current widget.
    pub fn new() -> (e: Self)
        ensures
            e.deep_view() == default_event(),
    {
        let mut params = Vec::new();
        proof {
            reveal_strlit("_");
        }
        let underscore = String::from_str("_");
        assert(underscore@ =~= seq!['_']);
        params.push(underscore);
        let e = Event {
            is_async: false,
            params,
            use_self: false,
            value: EventValue::CurrentWidget(EventValueReturn::WithoutReturn(String::new())),
        };
        assert(e.params.deep_view() =~= seq![seq!['_']]);
        e
    }
}

/// The event that `Event::new` makes.
pub open spec fn default_event() -> EventModel {
    EventModel {
        is_async: false,
        params: seq![seq!['_']],
        use_self: false,
        value: EventValueModel::CurrentWidget(EventValueReturnModel::WithoutReturn(Seq::empty())),
    }
}

/// A widget type, as a Rust path: its text and the identifiers of its
/// segments.
#[derive(Debug)]
pub struct TypePath {
    pub text: String,
    pub segments: Vec<String>,
}

impl DeepView for TypePath {
    type V = PathModel;

    open spec fn deep_view(&self) -> PathModel {
        PathModel { text: self.text@, segments: self.segments.deep_view() }
    }
}

/// What is particular to a gtk widget.
pub struct GtkWidget {
    /// Properties given when the widget is constructed, by name (with `_`
    /// written `-`), as expression text.
    pub construct_properties: Table<String, String>,
    /// Event handlers, by event name.
    pub events: Table<String, Event>,
    /// The relm type of the widget, where one is given (never set by the
    /// parser).
    pub relm_name: Option<String>,
    /// Whether the widget is kept in the widget's model.
    pub save: bool,
}

impl DeepView for GtkWidget {
    type V = GtkWidgetModel;

    open spec fn deep_view(&self) -> GtkWidgetModel {
        GtkWidgetModel {
            construct_properties: self.construct_properties.deep_view(),
            events: self.events.deep_view(),
            relm_name: self.relm_name.deep_view(),
            save: self.save,
        }
    }
}

impl GtkWidget {
    /// A gtk widget without construct properties or events.
    pub fn new() -> (w: Self)
        ensures
            w.deep_view() == (GtkWidgetModel {
                construct_properties: Seq::empty(),
                events: Seq::empty(),
                relm_name: None,
                save: false,
            }),
    {
        GtkWidget {
            construct_properties: Table::new(),
            events: Table::new(),
            relm_name: None,
            save: false,
        }
    }
}

/// What is particular to a relm widget.
pub struct RelmWidget {
    /// Handlers of the widget's own messages, by message name.
    pub events: Table<String, Vec<Event>>,
    /// Handlers of gtk events, by event name.
    pub gtk_events: Table<String, Event>,
}

impl DeepView for RelmWidget {
    type V = RelmWidgetModel;

    open spec fn deep_view(&self) -> RelmWidgetModel {
        RelmWidgetModel { events: self.events.deep_view(), gtk_events: self.gtk_events.deep_view() }
    }
}

impl RelmWidget {
    /// A relm widget without events.
    pub fn new() -> (w: Self)
        ensures
            w.deep_view() == (RelmWidgetModel { events: Seq::empty(), gtk_events: Seq::empty() }),
    {
        RelmWidget { events: Table::new(), gtk_events: Table::new() }
    }
}

pub enum EitherWidget {
    Gtk(GtkWidget),
    Relm(RelmWidget),
}

impl DeepView for EitherWidget {
    type V = EitherWidgetModel;

    open spec fn deep_view(&self) -> EitherWidgetModel {
        match self {
            EitherWidget::Gtk(w) => EitherWidgetModel::Gtk(w.deep_view()),
            EitherWidget::Relm(w) => EitherWidgetModel::Relm(w.deep_view()),
        }
    }
}

/// A widget of the view, with its children.
pub struct Widget {
    /// Handlers of events of child widgets, by child name and event name.
    pub child_events: Table<(String, String), Event>,
    /// Properties that the widget has as a child of its container.
    pub child_properties: Table<String, String>,
    pub children: Vec<Widget>,
    /// `Some(t)` where the widget carries a `#[container]` attribute, `t`
    /// being its value.
    pub container_type: Option<Option<String>>,
    /// The expressions given to the widget's constructor, as text.
    pub init_parameters: Vec<String>,
    /// The widget's name: generated from its type, or given by `#[name]`.
    pub name: String,
    /// The value of the `#[parent]` attribute of the root widget.
    pub parent_id: Option<String>,
    /// The widget's properties, by name, as expression text.
    pub properties: Table<String, String>,
    pub typ: TypePath,
    pub widget: EitherWidget,
}

impl Widget {
    /// The mathematical value of the widget.
    pub open spec fn model(self) -> WidgetModel
        decreases self,
    {
        WidgetModel {
            child_events: self.child_events.deep_view(),
            child_properties: self.child_properties.deep_view(),
            children: models_of(self.children@),
            container_type: self.container_type.deep_view(),
            init_parameters: self.init_parameters.deep_view(),
            name: self.name@,
            parent_id: self.parent_id.deep_view(),
            properties: self.properties.deep_view(),
            typ: self.typ.deep_view(),
            widget: self.widget.deep_view(),
        }
    }
}

/// The mathematical values of a list of widgets.
pub open spec fn models_of(ws: Seq<Widget>) -> Seq<WidgetModel>
    decreases ws,
{
    if ws.len() == 0 {
        Seq::empty()
    } else {
        models_of(ws.drop_last()).push(ws.last().model())
    }
}

/// Adding a widget at the end of a list adds its value at the end of the
/// list's values.
pub proof fn lemma_models_of_push(ws: Seq<Widget>, w: Widget)
    ensures
        models_of(ws.push(w)) == models_of(ws).push(w.model()),
{
    assert(ws.push(w).drop_last() =~= ws);
}

pub proof fn lemma_models_of_len(ws: Seq<Widget>)
    ensures
        models_of(ws).len() == ws.len(),
    decreases ws.len(),
{
    if ws.len() > 0 {
        lemma_models_of_len(ws.drop_last());
    }
}

} // verus!
