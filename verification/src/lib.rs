//! A text-input engine for terminals: a document, a cursor in it and a
//! scrolling viewport over it, driven by key and pointer events.
//!
//! The engine does no input or output of its own. A program reads the events
//! and hands them to [`CoolInput::handle_event`], which says whether the input
//! has to be drawn again; [`CoolInput::render`] then says what to draw.

pub mod document;
pub mod edits;
pub mod error;
pub mod event;
pub mod handler;
pub mod input;
pub mod laws;
pub mod model;
pub mod text_data;
pub mod viewport;

pub use document::get_slice_of_string;
pub use error::InputError;
pub use event::{Event, KeyCode, KeyEvent, KeyEventKind, MouseEventKind};
pub use handler::{CustomInputHandler, DefaultInputHandler, HandlerContext, KeyPressResult};
pub use input::{CoolInput, EventOutcome, Frame, Pending};
pub use text_data::TextInputData;
pub use viewport::{InputTransform, ScreenLine};
