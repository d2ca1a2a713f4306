//! A verified reader for the `view!` language that describes a tree of gtk
//! and relm widgets: properties, constructor arguments, event handlers,
//! child widgets and their attributes.
//!
//! The view comes in as token trees (`tokens::Tok`); `tree::parse` reads it
//! into a `widget::Widget`. Every reading function's contract says that it
//! computes exactly what the grammar's spec functions (in `pieces`, `values`
//! and `tree`) give, errors included.
pub mod laws;
pub mod model;
pub mod names;
pub mod pieces;
pub mod syntax;
pub mod table;
pub mod text;
pub mod tokens;
pub mod tree;
pub mod values;
pub mod widget;

pub use model::ViewError;
pub use names::NameIndex;
pub use tokens::{Delimiter, Punct, Tok};
pub use tree::{parse, view_file};
pub use widget::{EitherWidget, Event, EventValue, EventValueReturn, GtkWidget, RelmWidget, TypePath, Widget};
