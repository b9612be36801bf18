//! The hook through which a program takes part in the handling of events.

use vstd::prelude::*;
use crate::event::{Event, KeyCode, KeyEventKind};
use crate::text_data::TextInputData;
use crate::viewport::InputTransform;

verus! {

/// What a handler answers to an event. It tells the input how to go on.
#[derive(Clone, Copy, Debug, PartialEq, Eq)]
pub enum KeyPressResult {
    /// The event has been handled, and is not processed any further.
    Handled,
    /// The input stops, as when it is finished or submitted.
    Stop,
    /// The event is handled as usual.
    Continue,
}

/// What a handler is given to work on: the document with its cursor, which it
/// may change, and the size of the terminal.
pub struct HandlerContext<'a> {
    pub text_data: &'a mut TextInputData,
    pub terminal_size: &'a (u16, u16),
}

/// Whether `event` is one of the keys that end an input: Escape pressed, or
/// `c` pressed while the control key is held.
pub open spec fn is_stop_key(event: Event) -> bool {
    event matches Event::Key(key) && key.kind == KeyEventKind::Press && (key.code == KeyCode::Esc
        || (key.code == KeyCode::Char('c') && key.control))
}

/// Whether `event` is one of the keys that end an input.
pub fn stops(event: &Event) -> (stop: bool)
    ensures
        stop == is_stop_key(*event),
{
    match event {
        Event::Key(key) => match key.kind {
            KeyEventKind::Press => match key.code {
                KeyCode::Esc => true,
                KeyCode::Char(c) => c == 'c' && key.control,
                _ => false,
            },
            _ => false,
        },
        _ => false,
    }
}

/// The answer of a handler that leaves everything to the input: the keys that
/// end an input stop it, every other event is handled as usual.
pub fn default_key_press(key: &Event) -> (answer: KeyPressResult)
    ensures
        answer == if is_stop_key(*key) {
            KeyPressResult::Stop
        } else {
            KeyPressResult::Continue
        },
{
    if stops(key) {
        KeyPressResult::Stop
    } else {
        KeyPressResult::Continue
    }
}

/// The transform of an input that fills the terminal.
pub fn default_input_transform(terminal_size: (u16, u16)) -> (transform: InputTransform)
    ensures
        transform == (InputTransform { size: terminal_size, offset: (0, 0) }),
{
    InputTransform { size: terminal_size, offset: (0, 0) }
}

/// What a program implements to give an input a behaviour of its own. Every
/// method has a default, so a handler overrides only what it needs.
pub trait CustomInputHandler {
    /// Called with every event before the input handles it. Unless a handler
    /// says otherwise, the keys that end an input stop it, every other event
    /// is left to the input, and the document and the cursor stay as they
    /// are.
    fn handle_key_press(&mut self, key: &Event, ctx: HandlerContext) -> (answer: KeyPressResult)
        default_ensures
            answer == if is_stop_key(*key) {
                KeyPressResult::Stop
            } else {
                KeyPressResult::Continue
            },
            *final(ctx.text_data) == *old(ctx.text_data),
    {
        default_key_press(key)
    }

    /// Called before the text is drawn, to set its colour for one. It is
    /// meant to leave the document and the cursor as they are.
    fn before_draw_text(&mut self, ctx: HandlerContext) {
    }

    /// Called after the text is drawn, to draw a title or a status line for
    /// one. It is meant to leave the document and the cursor as they are.
    fn after_draw_text(&mut self, ctx: HandlerContext) {
    }

    /// Called after the cursor is drawn, to change how it looks for one. It is
    /// meant to leave the document and the cursor as they are.
    fn after_update_cursor(&mut self, ctx: HandlerContext) {
    }

    /// Called to ask where on the terminal the input lies and how large it
    /// is. Unless a handler says otherwise, the input fills the terminal, and
    /// the document and the cursor stay as they are.
    fn get_input_transform(&mut self, ctx: HandlerContext) -> (transform: InputTransform)
        default_ensures
            transform == (InputTransform { size: *ctx.terminal_size, offset: (0, 0) }),
            *final(ctx.text_data) == *old(ctx.text_data),
    {
        default_input_transform(*ctx.terminal_size)
    }
}

/// A handler that leaves everything to the input.
pub struct DefaultInputHandler;

impl CustomInputHandler for DefaultInputHandler {
    fn handle_key_press(&mut self, key: &Event, ctx: HandlerContext) -> (answer: KeyPressResult)
        ensures
            answer == if is_stop_key(*key) {
                KeyPressResult::Stop
            } else {
                KeyPressResult::Continue
            },
            *final(ctx.text_data) == *old(ctx.text_data),
    {
        default_key_press(key)
    }

    fn before_draw_text(&mut self, ctx: HandlerContext)
        ensures
            *final(ctx.text_data) == *old(ctx.text_data),
    {
    }

    fn after_draw_text(&mut self, ctx: HandlerContext)
        ensures
            *final(ctx.text_data) == *old(ctx.text_data),
    {
    }

    fn after_update_cursor(&mut self, ctx: HandlerContext)
        ensures
            *final(ctx.text_data) == *old(ctx.text_data),
    {
    }

    fn get_input_transform(&mut self, ctx: HandlerContext) -> (transform: InputTransform)
        ensures
            transform == (InputTransform { size: *ctx.terminal_size, offset: (0, 0) }),
            *final(ctx.text_data) == *old(ctx.text_data),
    {
        default_input_transform(*ctx.terminal_size)
    }
}

} // verus!
