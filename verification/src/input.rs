//! The input itself: a document with its cursor, the offsets of the viewport
//! over it, and the handler that a program has given it.

use vstd::prelude::*;
use crate::document::{last_row, line_count};
use crate::error::InputError;
use crate::event::{Event, KeyEvent, KeyEventKind, MouseEventKind};
use crate::handler::{is_stop_key, stops, CustomInputHandler, HandlerContext, KeyPressResult};
use crate::model::TextModel;
use crate::text_data::TextInputData;
use crate::viewport::{
    adjusted, adjustment_fits, cursor_on_screen, cursor_place, in_view,
    keep_scroll_axis_in_view, lemma_shows_within, row_in_view, shows, visible_lines,
    InputTransform, ScreenLine,
};

verus! {

/// The main input type. Its handler decides what is special about it.
pub struct CoolInput<H: CustomInputHandler> {
    pub text_data: TextInputData,
    pub scroll_x: usize,
    pub scroll_y: usize,
    pub listening: bool,
    pub custom_input: H,
}

/// What is left to do for an event once the handler has answered and the keys
/// have done their work.
#[derive(Clone, Copy, Debug, PartialEq, Eq)]
pub enum Pending {
    /// The cursor may have moved: the viewport follows it, then the input is
    /// drawn.
    Sync,
    /// The input is drawn.
    Draw,
    /// The viewport goes one row down if the document reaches that far, and
    /// the input is drawn if it did.
    WheelDown,
    /// Nothing.
    Nothing,
    /// The input has stopped.
    Stop,
}

/// How the handling of an event ended.
#[derive(Clone, Copy, Debug, PartialEq, Eq)]
pub enum EventOutcome {
    /// The input has to be drawn again.
    Render,
    /// Nothing has to be done.
    Idle,
    /// The input has stopped.
    Stopped,
}

/// What is drawn for an input: its lines, and the place of the cursor where it
/// is shown.
pub struct Frame {
    pub lines: Vec<ScreenLine>,
    pub cursor: Option<(u16, u16)>,
}

/// Whether the keys do their usual work for `event`: the handler has left the
/// event to the input, and the event is a key pressed that does not end the
/// input.
pub open spec fn edits(answer: KeyPressResult, event: Event) -> bool {
    &&& answer == KeyPressResult::Continue
    &&& event matches Event::Key(key)
    &&& key.kind == KeyEventKind::Press
    &&& !is_stop_key(event)
}

/// The key of an event of the keyboard.
pub open spec fn key_of(event: Event) -> KeyEvent
    recommends
        event is Key,
{
    event->Key_0
}

/// What is left to do after the handler has answered `answer` to `event`.
pub open spec fn pending_after(answer: KeyPressResult, event: Event) -> Pending {
    match answer {
        KeyPressResult::Handled => Pending::Sync,
        KeyPressResult::Stop => Pending::Stop,
        KeyPressResult::Continue => match event {
            Event::Key(key) => if key.kind != KeyEventKind::Press {
                Pending::Nothing
            } else if is_stop_key(event) {
                Pending::Stop
            } else {
                Pending::Sync
            },
            Event::Mouse(MouseEventKind::ScrollUp) => Pending::Draw,
            Event::Mouse(MouseEventKind::ScrollDown) => Pending::WheelDown,
            _ => Pending::Nothing,
        },
    }
}

/// Where the viewport begins after it has followed the cursor along one axis:
/// where `adjusted` puts it, or where it was if that does not fit the machine's
/// numbers.
pub open spec fn followed(scroll: int, cursor_pos: int, extent: int, increasing: bool) -> int {
    if adjusted(scroll, cursor_pos, extent, increasing) <= usize::MAX {
        adjusted(scroll, cursor_pos, extent, increasing)
    } else {
        scroll
    }
}

/// Where the viewport begins after the wheel has turned down over a document
/// of `lines` lines: one row further down, but not below the last line of the
/// document.
pub open spec fn wheeled_down(scroll_y: int, lines: int) -> int {
    if scroll_y + 1 < lines {
        scroll_y + 1
    } else {
        scroll_y
    }
}

impl<H: CustomInputHandler> CoolInput<H> {
    /// A fresh input: an empty document with the cursor at its start, a
    /// viewport that is not scrolled, and not yet listening.
    pub fn new(handler: H, tab_width: usize) -> (input: Self)
        ensures
            input.text_data@ == TextModel::empty(tab_width as nat),
            input.text_data@.well_formed(),
            input.scroll_x == 0,
            input.scroll_y == 0,
            !input.listening,
            input.custom_input == handler,
    {
        CoolInput {
            text_data: TextInputData { text: String::new(), cursor_x: 0, cursor_y: 0, tab_width },
            listening: false,
            scroll_x: 0,
            scroll_y: 0,
            custom_input: handler,
        }
    }

    /// The part of a terminal of the size `physical` that inputs may use: all
    /// of it but its last row.
    pub fn get_terminal_size(&self, physical: (u16, u16)) -> (usable: (u16, u16))
        requires
            physical.1 >= 1,
        ensures
            usable.0 == physical.0,
            usable.1 == physical.1 - 1,
    {
        (physical.0, physical.1 - 1)
    }

    /// The same input after its handler has been at work: with the handler
    /// as `handler` and the document and the cursor as `text_data`.
    pub open spec fn after_handler(self, handler: H, text_data: TextInputData) -> Self {
        CoolInput { custom_input: handler, text_data, ..self }
    }

    /// The same input after the viewport has followed the cursor in the
    /// transform `transform`, along each axis on its own.
    pub open spec fn following(
        self,
        transform: InputTransform,
        moving_right: bool,
        moving_down: bool,
    ) -> Self {
        CoolInput {
            scroll_x: followed(
                self.scroll_x as int,
                self.text_data.cursor_x as int,
                transform.size.0 as int,
                moving_right,
            ) as usize,
            scroll_y: followed(
                self.scroll_y as int,
                self.text_data.cursor_y as int,
                transform.size.1 as int,
                moving_down,
            ) as usize,
            ..self
        }
    }

    /// The same input after the wheel has turned down.
    pub open spec fn wheeled(self) -> Self {
        CoolInput {
            scroll_y: wheeled_down(
                self.scroll_y as int,
                line_count(self.text_data.text@) as int,
            ) as usize,
            ..self
        }
    }

    /// Whether `after` and `pending` are what is left once the handler has
    /// answered `answer` to `event` and the keys have done their work. Where
    /// the handler has handled the event, only the viewport is left to follow
    /// the cursor. Where it has stopped the input, the input stops listening.
    /// Where it has left the event to the input, a key that ends an input
    /// stops it, any other key pressed does its usual work on the document and
    /// the cursor, the wheel turned up moves the viewport one row up if there
    /// is one, the wheel turned down is left to do, and nothing else does
    /// anything. Where a key is to do its work and the state does not take it,
    /// nothing changes and the failure is what is left.
    pub open spec fn dispatched(
        self,
        answer: KeyPressResult,
        event: Event,
        after: Self,
        pending: Result<Pending, InputError>,
    ) -> bool {
        &&& after.custom_input == self.custom_input
        &&& after.scroll_x == self.scroll_x
        &&& if edits(answer, event) {
            &&& after.listening == self.listening
            &&& after.scroll_y == self.scroll_y
            &&& if self.text_data@.takes(key_of(event).code) {
                &&& pending == Ok::<Pending, InputError>(Pending::Sync)
                &&& after.text_data@ == self.text_data@.pressed(key_of(event).code)
            } else {
                &&& pending == Err::<Pending, InputError>(InputError::OutOfBounds)
                &&& after.text_data == self.text_data
            }
        } else {
            &&& pending == Ok::<Pending, InputError>(pending_after(answer, event))
            &&& after.text_data == self.text_data
            &&& after.listening == (self.listening && pending_after(answer, event)
                != Pending::Stop)
            &&& after.scroll_y == if pending_after(answer, event) == Pending::Draw
                && self.scroll_y > 0 {
                (self.scroll_y - 1) as usize
            } else {
                self.scroll_y
            }
        }
    }

    /// Whether what is left to do needs the transform of the input: that is
    /// so where the viewport is to follow the cursor.
    pub open spec fn needs_transform(pending: Result<Pending, InputError>) -> bool {
        pending == Ok::<Pending, InputError>(Pending::Sync)
    }

    /// How the handling of an event ends where nothing is left that needs the
    /// transform of the input. Where the wheel has turned down, the viewport
    /// goes one row down if the document reaches that far, and the input is
    /// drawn again if it went. Else the input stays as it is: a failure is
    /// handed on, a stopped input is reported as stopped, and the input is
    /// drawn again if that is what is left.
    pub open spec fn finished_without_transform(
        self,
        pending: Result<Pending, InputError>,
        after: Self,
        r: Result<EventOutcome, InputError>,
    ) -> bool {
        match pending {
            Err(e) => after == self && r == Err::<EventOutcome, InputError>(e),
            Ok(Pending::Stop) => after == self && r == Ok::<EventOutcome, InputError>(
                EventOutcome::Stopped,
            ),
            Ok(Pending::Nothing) => after == self && r == Ok::<EventOutcome, InputError>(
                EventOutcome::Idle,
            ),
            Ok(Pending::WheelDown) => after == self.wheeled() && r == Ok::<
                EventOutcome,
                InputError,
            >(
                if after.scroll_y != self.scroll_y {
                    EventOutcome::Render
                } else {
                    EventOutcome::Idle
                },
            ),
            _ => after == self && r == Ok::<EventOutcome, InputError>(EventOutcome::Render),
        }
    }

    /// Asks the handler for the transform of the input and cuts it down to the
    /// terminal. The handler is handed the document with its cursor and the
    /// size of the terminal; what comes back is what the handler gave, cut
    /// down as `clipped` says, and the input is as the handler left it.
    pub fn get_input_transform(&mut self, terminal_size: (u16, u16)) -> (transform: InputTransform)
        ensures
            exists|handler: &mut H, ctx: HandlerContext, asked: InputTransform|
                {
                    &&& #[trigger] call_ensures(H::get_input_transform, (handler, ctx), asked)
                    &&& mut_ref_current(handler) == old(self).custom_input
                    &&& mut_ref_current(ctx.text_data) == old(self).text_data
                    &&& *ctx.terminal_size == terminal_size
                    &&& *final(self) == old(self).after_handler(
                        mut_ref_future(handler),
                        mut_ref_future(ctx.text_data),
                    )
                    &&& transform == asked.clipped(terminal_size)
                },
            transform.fits(terminal_size),
            final(self).scroll_x == old(self).scroll_x,
            final(self).scroll_y == old(self).scroll_y,
            final(self).listening == old(self).listening,
    {
        let asked = self.custom_input.get_input_transform(
            HandlerContext { text_data: &mut self.text_data, terminal_size: &terminal_size },
        );
        asked.clip(terminal_size)
    }

    /// What is drawn for the input: its lines and the place of its cursor.
    /// The handler is asked for the transform, with the document and the size
    /// of the terminal; the frame is what `draws` says of the input as the
    /// handler left it, in what the handler gave, cut down to the terminal.
    /// None of it lies outside the terminal.
    pub fn render(&mut self, terminal_size: (u16, u16)) -> (frame: Frame)
        ensures
            exists|handler: &mut H, ctx: HandlerContext, asked: InputTransform|
                {
                    &&& #[trigger] call_ensures(H::get_input_transform, (handler, ctx), asked)
                    &&& mut_ref_current(handler) == old(self).custom_input
                    &&& mut_ref_current(ctx.text_data) == old(self).text_data
                    &&& *ctx.terminal_size == terminal_size
                    &&& *final(self) == old(self).after_handler(
                        mut_ref_future(handler),
                        mut_ref_future(ctx.text_data),
                    )
                    &&& final(self).draws(frame, asked.clipped(terminal_size), terminal_size)
                },
            forall|i: int|
                0 <= i < frame.lines.len() ==> (#[trigger] frame.lines[i]).y < terminal_size.1 && (
                frame.lines[i].text@.len() > 0 ==> frame.lines[i].x + frame.lines[i].text@.len()
                    <= terminal_size.0),
            frame.cursor matches Some((x, y)) ==> x <= terminal_size.0 && y < terminal_size.1,
            final(self).scroll_x == old(self).scroll_x,
            final(self).scroll_y == old(self).scroll_y,
            final(self).listening == old(self).listening,
    {
        let transform = self.get_input_transform(terminal_size);
        let frame = self.frame(&transform, terminal_size);
        proof {
            lemma_shows_within(
                frame.lines@,
                self.text_data.text@,
                self.scroll_x as nat,
                self.scroll_y as nat,
                transform,
            );
        }
        frame
    }

    /// Whether `frame` is what is drawn for the input in the transform
    /// `transform`: the lines that the viewport shows of the document, and the
    /// place of the cursor on the terminal.
    pub open spec fn draws(
        self,
        frame: Frame,
        transform: InputTransform,
        terminal_size: (u16, u16),
    ) -> bool {
        &&& shows(
            frame.lines@,
            self.text_data.text@,
            self.scroll_x as nat,
            self.scroll_y as nat,
            transform,
        )
        &&& frame.cursor == cursor_place(
            self.text_data.cursor_x as int,
            self.text_data.cursor_y as int,
            self.scroll_x as int,
            self.scroll_y as int,
            transform,
            terminal_size,
        )
    }

    /// What is drawn for the input in the transform `transform`.
    pub fn frame(&self, transform: &InputTransform, terminal_size: (u16, u16)) -> (frame: Frame)
        ensures
            self.draws(frame, *transform, terminal_size),
    {
        let lines = visible_lines(
            self.text_data.text.as_str(),
            self.scroll_x,
            self.scroll_y,
            transform,
        );
        let cursor = cursor_on_screen(
            self.text_data.cursor_x,
            self.text_data.cursor_y,
            self.scroll_x,
            self.scroll_y,
            transform,
            terminal_size,
        );
        Frame { lines, cursor }
    }

    /// Where the cursor is drawn; `None` where it is hidden, because the
    /// viewport does not show its row. The handler is asked for the transform,
    /// with the document and the size of the terminal; the place is what
    /// `cursor_place` says of the input as the handler left it, in what the
    /// handler gave, cut down to the terminal.
    pub fn update_cursor(&mut self, terminal_size: (u16, u16)) -> (place: Option<(u16, u16)>)
        ensures
            exists|handler: &mut H, ctx: HandlerContext, asked: InputTransform|
                {
                    &&& #[trigger] call_ensures(H::get_input_transform, (handler, ctx), asked)
                    &&& mut_ref_current(handler) == old(self).custom_input
                    &&& mut_ref_current(ctx.text_data) == old(self).text_data
                    &&& *ctx.terminal_size == terminal_size
                    &&& *final(self) == old(self).after_handler(
                        mut_ref_future(handler),
                        mut_ref_future(ctx.text_data),
                    )
                    &&& place == cursor_place(
                        final(self).text_data.cursor_x as int,
                        final(self).text_data.cursor_y as int,
                        final(self).scroll_x as int,
                        final(self).scroll_y as int,
                        asked.clipped(terminal_size),
                        terminal_size,
                    )
                },
            place matches Some((x, y)) ==> x <= terminal_size.0 && y < terminal_size.1,
            final(self).scroll_x == old(self).scroll_x,
            final(self).scroll_y == old(self).scroll_y,
            final(self).listening == old(self).listening,
    {
        let transform = self.get_input_transform(terminal_size);
        cursor_on_screen(
            self.text_data.cursor_x,
            self.text_data.cursor_y,
            self.scroll_x,
            self.scroll_y,
            &transform,
            terminal_size,
        )
    }

    /// The lines that are drawn, from the top of the input to its bottom.
    /// The handler is asked for the transform, with the document and the size
    /// of the terminal; the lines are what `shows` says of the input as the
    /// handler left it, in what the handler gave, cut down to the terminal.
    pub fn update_text(&mut self, terminal_size: (u16, u16)) -> (lines: Vec<ScreenLine>)
        ensures
            exists|handler: &mut H, ctx: HandlerContext, asked: InputTransform|
                {
                    &&& #[trigger] call_ensures(H::get_input_transform, (handler, ctx), asked)
                    &&& mut_ref_current(handler) == old(self).custom_input
                    &&& mut_ref_current(ctx.text_data) == old(self).text_data
                    &&& *ctx.terminal_size == terminal_size
                    &&& *final(self) == old(self).after_handler(
                        mut_ref_future(handler),
                        mut_ref_future(ctx.text_data),
                    )
                    &&& shows(
                        lines@,
                        final(self).text_data.text@,
                        final(self).scroll_x as nat,
                        final(self).scroll_y as nat,
                        asked.clipped(terminal_size),
                    )
                },
            forall|i: int|
                0 <= i < lines.len() ==> (#[trigger] lines[i]).y < terminal_size.1 && (
                lines[i].text@.len() > 0 ==> lines[i].x + lines[i].text@.len() <= terminal_size.0),
            final(self).scroll_x == old(self).scroll_x,
            final(self).scroll_y == old(self).scroll_y,
            final(self).listening == old(self).listening,
    {
        let transform = self.get_input_transform(terminal_size);
        let lines = visible_lines(
            self.text_data.text.as_str(),
            self.scroll_x,
            self.scroll_y,
            &transform,
        );
        proof {
            lemma_shows_within(
                lines@,
                self.text_data.text@,
                self.scroll_x as nat,
                self.scroll_y as nat,
                transform,
            );
        }
        lines
    }

    /// Asks the handler for the transform of the input and lets the viewport
    /// follow the cursor in it, as `scroll_to_cursor` says.
    pub fn scroll_in_view(
        &mut self,
        moving_right: bool,
        moving_down: bool,
        terminal_size: (u16, u16),
    )
        ensures
            exists|handler: &mut H, ctx: HandlerContext, asked: InputTransform|
                {
                    &&& #[trigger] call_ensures(H::get_input_transform, (handler, ctx), asked)
                    &&& mut_ref_current(handler) == old(self).custom_input
                    &&& mut_ref_current(ctx.text_data) == old(self).text_data
                    &&& *ctx.terminal_size == terminal_size
                    &&& *final(self) == old(self).after_handler(
                        mut_ref_future(handler),
                        mut_ref_future(ctx.text_data),
                    ).following(asked.clipped(terminal_size), moving_right, moving_down)
                },
            exists|transform: InputTransform| #[trigger]
                transform.fits(terminal_size) && final(self).scroll_x == followed(
                    old(self).scroll_x as int,
                    final(self).text_data.cursor_x as int,
                    transform.size.0 as int,
                    moving_right,
                ) && final(self).scroll_y == followed(
                    old(self).scroll_y as int,
                    final(self).text_data.cursor_y as int,
                    transform.size.1 as int,
                    moving_down,
                ),
            final(self).listening == old(self).listening,
    {
        let transform = self.get_input_transform(terminal_size);
        self.scroll_to_cursor(&transform, moving_right, moving_down);
    }

    /// Lets the viewport follow the cursor, along each axis on its own:
    /// `moving_right` and `moving_down` say whether the cursor has moved
    /// towards larger columns and towards larger rows. A viewport that showed
    /// the cursor before it moved shows it afterwards.
    pub fn scroll_to_cursor(
        &mut self,
        transform: &InputTransform,
        moving_right: bool,
        moving_down: bool,
    )
        ensures
            *final(self) == old(self).following(*transform, moving_right, moving_down),
            transform.size.0 > 0 && (moving_right ==> old(self).scroll_x <= old(
                self,
            ).text_data.cursor_x) && (!moving_right ==> old(self).text_data.cursor_x < old(
                self,
            ).scroll_x + transform.size.0) ==> in_view(
                final(self).scroll_x as int,
                final(self).text_data.cursor_x as int,
                transform.size.0 as int,
            ),
            transform.size.1 > 0 && (moving_down ==> old(self).scroll_y <= old(
                self,
            ).text_data.cursor_y) && (!moving_down ==> old(self).text_data.cursor_y < old(
                self,
            ).scroll_y + transform.size.1) ==> in_view(
                final(self).scroll_y as int,
                final(self).text_data.cursor_y as int,
                transform.size.1 as int,
            ),
    {
        let width: usize = transform.size.0 as usize;
        let height: usize = transform.size.1 as usize;
        if adjustment_fits(self.scroll_x, self.text_data.cursor_x, width, moving_right) {
            self.scroll_x = keep_scroll_axis_in_view(
                self.scroll_x,
                self.text_data.cursor_x,
                width,
                moving_right,
            );
        }
        if adjustment_fits(self.scroll_y, self.text_data.cursor_y, height, moving_down) {
            self.scroll_y = keep_scroll_axis_in_view(
                self.scroll_y,
                self.text_data.cursor_y,
                height,
                moving_down,
            );
        }
    }

    /// Turns the wheel down: the viewport goes one row down, but not below the
    /// last line of the document, wherever the cursor is. Says whether it
    /// went.
    pub fn scroll_down(&mut self) -> (went: bool)
        ensures
            *final(self) == old(self).wheeled(),
            went == (final(self).scroll_y != old(self).scroll_y),
    {
        let last: usize = last_row(self.text_data.text.as_str());
        if self.scroll_y < last {
            self.scroll_y = self.scroll_y + 1;
            true
        } else {
            false
        }
    }

    /// Whether the viewport shows the row of the cursor. The handler is asked
    /// for the transform, with the document and the size of the terminal; the
    /// answer holds of the input as the handler left it, in what the handler
    /// gave, cut down to the terminal.
    pub fn cursor_within_screen(&mut self, terminal_size: (u16, u16)) -> (shown: bool)
        ensures
            exists|handler: &mut H, ctx: HandlerContext, asked: InputTransform|
                {
                    &&& #[trigger] call_ensures(H::get_input_transform, (handler, ctx), asked)
                    &&& mut_ref_current(handler) == old(self).custom_input
                    &&& mut_ref_current(ctx.text_data) == old(self).text_data
                    &&& *ctx.terminal_size == terminal_size
                    &&& *final(self) == old(self).after_handler(
                        mut_ref_future(handler),
                        mut_ref_future(ctx.text_data),
                    )
                    &&& shown == in_view(
                        final(self).scroll_y as int,
                        final(self).text_data.cursor_y as int,
                        asked.clipped(terminal_size).size.1 as int,
                    )
                },
            shown ==> final(self).scroll_y <= final(self).text_data.cursor_y,
            final(self).scroll_x == old(self).scroll_x,
            final(self).scroll_y == old(self).scroll_y,
            final(self).listening == old(self).listening,
    {
        let transform = self.get_input_transform(terminal_size);
        row_in_view(self.scroll_y, self.text_data.cursor_y, transform.size.1)
    }

    /// Does what is to be done once the handler has answered `answer` to
    /// `event`, but for what needs the transform of the input. Where the
    /// handler has handled the event, only the viewport is left to follow the
    /// cursor. Where it has stopped the input, the input stops listening.
    /// Where it has left the event to the input, a key that ends an input
    /// stops it, any other key pressed does its usual work on the document and
    /// the cursor, the wheel turned up moves the viewport one row up if there
    /// is one, the wheel turned down is left to do, and nothing else does
    /// anything. Fails, and changes nothing, where a key is to do its work and
    /// the state does not take it.
    pub fn dispatch(&mut self, answer: KeyPressResult, event: &Event) -> (r: Result<
        Pending,
        InputError,
    >)
        ensures
            old(self).dispatched(answer, *event, *final(self), r),
            old(self).text_data@.well_formed() ==> r is Ok && final(self).text_data@.well_formed(),
    {
        match answer {
            KeyPressResult::Handled => Ok(Pending::Sync),
            KeyPressResult::Stop => {
                self.listening = false;
                Ok(Pending::Stop)
            },
            KeyPressResult::Continue => match event {
                Event::Key(key_event) => match key_event.kind {
                    KeyEventKind::Press => {
                        if stops(event) {
                            self.listening = false;
                            Ok(Pending::Stop)
                        } else {
                            match self.text_data.handle_key_press(*key_event) {
                                Ok(()) => Ok(Pending::Sync),
                                Err(e) => Err(e),
                            }
                        }
                    },
                    _ => Ok(Pending::Nothing),
                },
                Event::Mouse(kind) => match kind {
                    MouseEventKind::ScrollUp => {
                        self.scroll_y = self.scroll_y.saturating_sub(1);
                        Ok(Pending::Draw)
                    },
                    MouseEventKind::ScrollDown => Ok(Pending::WheelDown),
                    MouseEventKind::Other => Ok(Pending::Nothing),
                },
                Event::Other => Ok(Pending::Nothing),
            },
        }
    }

    /// Handles one event: offers it to the handler, lets the keys do their
    /// usual work if the handler leaves it to them, and lets the viewport
    /// follow. Says whether the input has to be drawn again, or has stopped.
    /// Fails where a key is to do its work and the state that the handler left
    /// does not take it.
    ///
    /// The handler is handed the event, the document with its cursor and the
    /// size of the terminal. From the state `heard` that it leaves and its
    /// answer, `dispatched` gives the state `acted` and what is left to do.
    /// Where the viewport is to follow the cursor, the handler is asked for
    /// the transform of the input, again with the document and the size of
    /// the terminal, and the viewport follows in what the handler gave, cut
    /// down to the terminal; the cursor counts as moved right or down if it
    /// stands further right or further down in `acted` than before the call.
    /// Where the wheel has turned down, the viewport goes one row down, but
    /// not below the last line of the document, and the handler is not asked
    /// again.
    pub fn handle_event(&mut self, event: Event, terminal_size: (u16, u16)) -> (r: Result<
        EventOutcome,
        InputError,
    >)
        ensures
            exists|
                handler: &mut H,
                ctx: HandlerContext,
                answer: KeyPressResult,
                heard: CoolInput<H>,
                acted: CoolInput<H>,
                pending: Result<Pending, InputError>,
            |
                #![trigger
                    call_ensures(H::handle_key_press, (handler, &event, ctx), answer),
                    heard.dispatched(answer, event, acted, pending),
                ]
                {
                    &&& call_ensures(H::handle_key_press, (handler, &event, ctx), answer)
                    &&& mut_ref_current(handler) == old(self).custom_input
                    &&& mut_ref_current(ctx.text_data) == old(self).text_data
                    &&& *ctx.terminal_size == terminal_size
                    &&& heard == old(self).after_handler(
                        mut_ref_future(handler),
                        mut_ref_future(ctx.text_data),
                    )
                    &&& heard.dispatched(answer, event, acted, pending)
                    &&& if Self::needs_transform(pending) {
                        exists|handler2: &mut H, ctx2: HandlerContext, asked: InputTransform|
                            {
                                &&& #[trigger] call_ensures(
                                    H::get_input_transform,
                                    (handler2, ctx2),
                                    asked,
                                )
                                &&& mut_ref_current(handler2) == acted.custom_input
                                &&& mut_ref_current(ctx2.text_data) == acted.text_data
                                &&& *ctx2.terminal_size == terminal_size
                                &&& *final(self) == acted.after_handler(
                                    mut_ref_future(handler2),
                                    mut_ref_future(ctx2.text_data),
                                ).following(
                                    asked.clipped(terminal_size),
                                    acted.text_data.cursor_x > old(self).text_data.cursor_x,
                                    acted.text_data.cursor_y > old(self).text_data.cursor_y,
                                )
                                &&& r == Ok::<EventOutcome, InputError>(EventOutcome::Render)
                            }
                    } else {
                        acted.finished_without_transform(pending, *final(self), r)
                    }
                },
            r is Err ==> r == Err::<EventOutcome, InputError>(InputError::OutOfBounds) && edits(
                KeyPressResult::Continue,
                event,
            ) && final(self).scroll_x == old(self).scroll_x && final(self).scroll_y == old(
                self,
            ).scroll_y,
            r == Ok::<EventOutcome, InputError>(EventOutcome::Stopped) ==> !final(self).listening,
            r != Ok::<EventOutcome, InputError>(EventOutcome::Stopped) ==> final(self).listening
                == old(self).listening,
    {
        let old_cursor_x: usize = self.text_data.cursor_x;
        let old_cursor_y: usize = self.text_data.cursor_y;
        let answer = self.custom_input.handle_key_press(
            &event,
            HandlerContext { text_data: &mut self.text_data, terminal_size: &terminal_size },
        );
        let pending = match self.dispatch(answer, &event) {
            Ok(pending) => pending,
            Err(e) => {
                return Err(e);
            },
        };
        match pending {
            Pending::Sync => {
                self.scroll_in_view(
                    self.text_data.cursor_x > old_cursor_x,
                    self.text_data.cursor_y > old_cursor_y,
                    terminal_size,
                );
                Ok(EventOutcome::Render)
            },
            Pending::Draw => Ok(EventOutcome::Render),
            Pending::WheelDown => {
                if self.scroll_down() {
                    Ok(EventOutcome::Render)
                } else {
                    Ok(EventOutcome::Idle)
                }
            },
            Pending::Nothing => Ok(EventOutcome::Idle),
            Pending::Stop => Ok(EventOutcome::Stopped),
        }
    }
}

} // verus!
