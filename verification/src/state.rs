//! The editor's view state: where in the text the window is scrolled to, and
//! how window events move it.
//!
//! Events arrive here already stripped of what the state does not read: a
//! scroll is given as its direction and its whole number of lines.
use vstd::prelude::*;

verus! {

/// A place in the text: a line (`row`) and a character within it (`column`).
#[derive(Copy, Clone, Debug, PartialEq, Eq, Structural)]
pub struct Position {
    pub row: usize,
    pub column: usize,
}

/// What the event loop should do after an event.
#[derive(Copy, Clone, Debug, PartialEq, Eq, Structural)]
pub enum ControlFlow {
    /// Sleep until the next event.
    Wait,
    /// Leave the event loop.
    Exit,
}

/// The keys the state tells apart.
#[derive(Copy, Clone, Debug, PartialEq, Eq, Structural)]
pub enum VirtualKeyCode {
    Escape,
    /// Any key other than the ones above.
    Other,
}

/// Whether a key went down or came up.
#[derive(Copy, Clone, Debug, PartialEq, Eq, Structural)]
pub enum ElementState {
    Pressed,
    Released,
}

/// The stage of a touch or wheel gesture.
#[derive(Copy, Clone, Debug, PartialEq, Eq, Structural)]
pub enum TouchPhase {
    Started,
    Moved,
    Ended,
    Cancelled,
}

/// How far a mouse wheel turned.
#[derive(Copy, Clone, Debug, PartialEq, Eq, Structural)]
pub enum MouseScrollDelta {
    /// A scroll by lines: `upward` when the vertical amount was positive, and
    /// `lines` its magnitude in whole lines (the fraction dropped).
    LineDelta { upward: bool, lines: usize },
    /// A scroll measured in pixels.
    PixelDelta,
}

/// An event that concerns the window.
#[derive(Copy, Clone, Debug, PartialEq, Eq, Structural)]
pub enum WindowEvent {
    /// A keyboard key changed state; `virtual_keycode` is `None` for keys that
    /// have no virtual key code.
    KeyboardInput { virtual_keycode: Option<VirtualKeyCode>, state: ElementState },
    /// The user asked to close the window.
    CloseRequested,
    /// The mouse wheel moved.
    MouseWheel { delta: MouseScrollDelta, phase: TouchPhase },
    /// Any other window event.
    Other,
}

/// An event from the event loop.
#[derive(Copy, Clone, Debug, PartialEq, Eq, Structural)]
pub enum Event {
    WindowEvent(WindowEvent),
    /// An event that does not concern the window (device events, wake-ups, ...).
    Other,
}

/// The rows moved by one scroll of `lines` wheel lines.
pub open spec fn scroll_rows(lines: usize) -> int {
    3 * lines
}

/// The row after scrolling down by `lines` wheel lines from `row`: further
/// down the text, and back to the first row when the row would not fit in a
/// `usize`.
pub open spec fn row_after_scroll_down(row: usize, lines: usize) -> usize {
    if row + scroll_rows(lines) <= usize::MAX {
        (row + scroll_rows(lines)) as usize
    } else {
        0
    }
}

/// The row after scrolling up by `lines` wheel lines from `row`: further up
/// the text, stopping at the first row.
pub open spec fn row_after_scroll_up(row: usize, lines: usize) -> usize {
    if row >= scroll_rows(lines) {
        (row - scroll_rows(lines)) as usize
    } else {
        0
    }
}

/// Whether `event` can be handled: a line scroll whose row count does not fit
/// in a `usize` cannot.
pub open spec fn event_is_handleable(event: Event) -> bool {
    match event {
        Event::WindowEvent(
            WindowEvent::MouseWheel {
                delta: MouseScrollDelta::LineDelta { upward, lines },
                phase: TouchPhase::Moved,
            },
        ) => scroll_rows(lines) <= usize::MAX,
        _ => true,
    }
}

/// The row after `event`, from `row`.
pub open spec fn row_after_event(row: usize, event: Event) -> usize {
    match event {
        Event::WindowEvent(
            WindowEvent::MouseWheel {
                delta: MouseScrollDelta::LineDelta { upward, lines },
                phase: TouchPhase::Moved,
            },
        ) => if upward {
            row_after_scroll_up(row, lines)
        } else {
            row_after_scroll_down(row, lines)
        },
        _ => row,
    }
}

/// What `event` asks of the event loop: `None` leaves it as it is.
pub open spec fn flow_after_event(event: Event) -> Option<ControlFlow> {
    match event {
        Event::WindowEvent(w) => match w {
            WindowEvent::KeyboardInput { virtual_keycode: Some(key), state } => match key {
                VirtualKeyCode::Escape => Some(ControlFlow::Exit),
                VirtualKeyCode::Other => None,
            },
            WindowEvent::CloseRequested => Some(ControlFlow::Exit),
            WindowEvent::MouseWheel {
                delta: MouseScrollDelta::LineDelta { upward, lines },
                phase: TouchPhase::Moved,
            } => None,
            _ => Some(ControlFlow::Wait),
        },
        Event::Other => None,
    }
}

/// The view state of the editor.
pub struct State {
    position: Position,
}

impl View for State {
    type V = Position;

    closed spec fn view(&self) -> Position {
        self.position
    }
}

impl State {
    /// A state at the top left of the text.
    pub fn new() -> (s: Self)
        ensures
            s@ == (Position { row: 0, column: 0 }),
    {
        Self { position: Position { row: 0, column: 0 } }
    }

    /// The current position.
    pub fn get_position(&self) -> (p: Position)
        ensures
            p == self@,
    {
        self.position
    }

    /// Scrolls down by `lines` wheel lines (three rows each).
    fn go_down(&mut self, lines: usize)
        requires
            scroll_rows(lines) <= usize::MAX,
        ensures
            final(self)@.row == row_after_scroll_down(old(self)@.row, lines),
            final(self)@.column == old(self)@.column,
    {
        self.position.row = match self.position.row.checked_add(3 * lines) {
            Some(row) => row,
            None => 0,
        };
    }

    /// Scrolls up by `lines` wheel lines (three rows each).
    fn go_up(&mut self, lines: usize)
        requires
            scroll_rows(lines) <= usize::MAX,
        ensures
            final(self)@.row == row_after_scroll_up(old(self)@.row, lines),
            final(self)@.column == old(self)@.column,
    {
        self.position.row = match self.position.row.checked_sub(3 * lines) {
            Some(row) => row,
            None => 0,
        };
    }

    /// Moves the state by `event` and says what the event loop should do:
    /// `Some(Exit)` on Escape or a close request, `Some(Wait)` on any other
    /// window event but a key with a virtual key code and a moving line
    /// scroll, and `None` (leave the loop as it is) otherwise. A moving line
    /// scroll moves the row.
    pub fn handle_event(&mut self, event: &Event) -> (flow: Option<ControlFlow>)
        requires
            event_is_handleable(*event),
        ensures
            final(self)@.row == row_after_event(old(self)@.row, *event),
            final(self)@.column == old(self)@.column,
            flow == flow_after_event(*event),
    {
        match event {
            Event::WindowEvent(window_event) => match window_event {
                WindowEvent::KeyboardInput { virtual_keycode: Some(key), .. } => match key {
                    VirtualKeyCode::Escape => Some(ControlFlow::Exit),
                    _ => None,
                },
                WindowEvent::CloseRequested => Some(ControlFlow::Exit),
                WindowEvent::MouseWheel {
                    delta: MouseScrollDelta::LineDelta { upward, lines },
                    phase: TouchPhase::Moved,
                } => {
                    if *upward {
                        self.go_up(*lines);
                    } else {
                        self.go_down(*lines);
                    }
                    None
                },
                _ => Some(ControlFlow::Wait),
            },
            _ => None,
        }
    }
}

/// Scrolling down by some lines and then up by as many returns to the row one
/// started from, when the row below does not run past the largest `usize`.
pub proof fn lemma_scroll_down_then_up(row: usize, lines: usize)
    requires
        row + scroll_rows(lines) <= usize::MAX,
    ensures
        row_after_scroll_up(row_after_scroll_down(row, lines), lines) == row,
{
}

/// Scrolling up by some lines and then down by as many returns to the row one
/// started from, when there were at least that many rows above it.
pub proof fn lemma_scroll_up_then_down(row: usize, lines: usize)
    requires
        row >= scroll_rows(lines),
    ensures
        row_after_scroll_down(row_after_scroll_up(row, lines), lines) == row,
{
}

/// Scrolling up never moves past the first row, and a scroll up by more rows
/// than there are above stops exactly at the first row.
pub proof fn lemma_scroll_up_stops_at_top(row: usize, lines: usize)
    ensures
        row_after_scroll_up(row, lines) <= row,
        scroll_rows(lines) >= row ==> row_after_scroll_up(row, lines) == 0,
{
}

/// Scrolling down moves further down the text unless the row would no longer
/// fit, in which case it wraps to the first row.
pub proof fn lemma_scroll_down_moves_down(row: usize, lines: usize)
    ensures
        row + scroll_rows(lines) <= usize::MAX ==> row_after_scroll_down(row, lines) >= row,
        row + scroll_rows(lines) > usize::MAX ==> row_after_scroll_down(row, lines) == 0,
{
}

/// The event loop is told to exit exactly on Escape or a close request.
pub proof fn lemma_exit_exactly_on_escape_or_close(event: Event)
    ensures
        flow_after_event(event) == Some(ControlFlow::Exit) <==> (event == Event::WindowEvent(
            WindowEvent::CloseRequested,
        ) || exists|s: ElementState|
            event == Event::WindowEvent(
                WindowEvent::KeyboardInput { virtual_keycode: Some(VirtualKeyCode::Escape), state: s },
            )),
{
    if let Event::WindowEvent(WindowEvent::KeyboardInput { virtual_keycode: Some(VirtualKeyCode::Escape), state }) = event {
        assert(event == Event::WindowEvent(
            WindowEvent::KeyboardInput { virtual_keycode: Some(VirtualKeyCode::Escape), state: state },
        ));
    }
}

/// Only a moving line scroll moves the row; no event moves the column
/// (stated on `State::handle_event`).
pub proof fn lemma_only_line_scrolls_move(row: usize, event: Event)
    requires
        !(event matches Event::WindowEvent(
            WindowEvent::MouseWheel { delta: MouseScrollDelta::LineDelta { .. }, phase: TouchPhase::Moved },
        )),
    ensures
        row_after_event(row, event) == row,
{
}

} // verus!
