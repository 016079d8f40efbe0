//! Scrolling the command buttons and the terminal.

use vstd::prelude::*;

use crate::domain::layout::ButtonScroll;
use crate::domain::terminal::{TerminalScroll, TerminalScrollState};
use crate::num;

verus! {

/// What one notch of a wheel counts.
pub const WHEEL_DELTA: i32 = 120;

pub const LINES_PER_WHEEL_STEP: i32 = 3;

/// The position some lines further down, or further up for a negative number,
/// between the first and the last position.
pub open spec fn scrolled(current: int, last: int, lines: int) -> int {
    if lines < 0 {
        num::max_int(current + lines, 0)
    } else {
        num::min_int(current + lines, last)
    }
}

pub fn scrolled_position_by_lines(current: usize, max_position: usize, line_delta: i32) -> (position:
    usize)
    ensures
        position == scrolled(current as int, max_position as int, line_delta as int),
{
    if line_delta < 0 {
        let up: u32 = (-(line_delta as i64)) as u32;
        if up as u64 > current as u64 {
            0
        } else {
            current - up as usize
        }
    } else {
        let down = line_delta as usize;
        if down > usize::MAX - current {
            max_position
        } else {
            num::min_usize(current + down, max_position)
        }
    }
}

/// A division that drops what is left over.
pub open spec fn truncated_quotient(value: int, divisor: int) -> int {
    if value < 0 {
        -((-value) / divisor)
    } else {
        value / divisor
    }
}

/// How many notches a wheel was turned; less than one counts as one.
pub open spec fn wheel_steps(delta: int) -> int {
    if delta == 0 {
        0
    } else if -WHEEL_DELTA < delta < WHEEL_DELTA {
        if delta < 0 {
            -1
        } else {
            1
        }
    } else {
        truncated_quotient(delta, WHEEL_DELTA as int)
    }
}

/// How many lines a wheel moves what it is turned over.
pub open spec fn wheel_lines(delta: int) -> int {
    3 * wheel_steps(delta)
}

/// How many lines the buttons move down when a wheel is turned.
pub fn command_button_scroll_lines_from_wheel_delta(wheel_delta: i32) -> (lines: i32)
    ensures
        lines == -wheel_lines(wheel_delta as int),
        wheel_delta > 0 ==> lines < 0,
        wheel_delta < 0 ==> lines > 0,
{
    if wheel_delta == 0 {
        return 0;
    }
    let steps: i64 = if wheel_delta >= WHEEL_DELTA {
        (wheel_delta / WHEEL_DELTA) as i64
    } else if wheel_delta <= -WHEEL_DELTA {
        let turned: i64 = -(wheel_delta as i64);
        -(turned / WHEEL_DELTA as i64)
    } else if wheel_delta > 0 {
        1
    } else {
        -1
    };
    let lines: i64 = LINES_PER_WHEEL_STEP as i64;
    assert(lines * steps == 3 * steps) by (nonlinear_arith)
        requires
            lines == 3,
    ;
    (-(lines * steps)) as i32
}

/// How many lines the terminal's display moves up when a wheel is turned.
pub fn terminal_scroll_lines_from_wheel_delta(wheel_delta: i32) -> (lines: i32)
    ensures
        lines == wheel_lines(wheel_delta as int),
        wheel_delta > 0 ==> lines > 0,
        wheel_delta < 0 ==> lines < 0,
{
    let lines = command_button_scroll_lines_from_wheel_delta(wheel_delta);
    -lines
}

/// Which way a wheel was turned.
#[derive(Clone, Copy, Debug, PartialEq, Eq, Structural)]
pub enum WheelDirection {
    Down,
    Up,
    Still,
}

/// How many lines the buttons move down, whatever the distance.
pub fn command_button_scroll_lines_from_direction(direction: WheelDirection) -> (lines: i32)
    ensures
        lines == match direction {
            WheelDirection::Down => LINES_PER_WHEEL_STEP as int,
            WheelDirection::Up => -LINES_PER_WHEEL_STEP,
            WheelDirection::Still => 0,
        },
{
    match direction {
        WheelDirection::Down => LINES_PER_WHEEL_STEP,
        WheelDirection::Up => -LINES_PER_WHEEL_STEP,
        WheelDirection::Still => 0,
    }
}

/// How many lines the terminal's display moves up, whatever the distance.
pub fn terminal_scroll_lines_from_direction(direction: WheelDirection) -> (lines: i32)
    ensures
        lines == match direction {
            WheelDirection::Down => -LINES_PER_WHEEL_STEP,
            WheelDirection::Up => LINES_PER_WHEEL_STEP as int,
            WheelDirection::Still => 0,
        },
{
    -command_button_scroll_lines_from_direction(direction)
}

/// Turning a wheel moves buttons and display in opposite directions, by the
/// same number of lines.
pub proof fn law_wheel_directions_are_opposite(delta: int)
    ensures
        wheel_steps(-delta) == -wheel_steps(delta),
        delta > 0 ==> wheel_steps(delta) >= 1,
{
}

/// What is asked of the buttons' scroll bar.
#[derive(Clone, Copy, Debug, PartialEq, Eq, Structural)]
pub enum CommandButtonScrollRequest {
    LineUp,
    LineDown,
    PageUp,
    PageDown,
    Absolute(usize),
    Top,
    Bottom,
}

/// Where a request leads to.
pub open spec fn requested_position(scroll: ButtonScroll, request: CommandButtonScrollRequest) -> int {
    let page = num::max_int(scroll.page_len as int, 1);
    let last = scroll.max_position as int;
    match request {
        CommandButtonScrollRequest::LineUp => num::max_int(scroll.position - 1, 0),
        CommandButtonScrollRequest::LineDown => num::min_int(scroll.position + 1, last),
        CommandButtonScrollRequest::PageUp => num::max_int(scroll.position - page, 0),
        CommandButtonScrollRequest::PageDown => num::min_int(scroll.position + page, last),
        CommandButtonScrollRequest::Absolute(position) => num::min_int(position as int, last),
        CommandButtonScrollRequest::Top => 0,
        CommandButtonScrollRequest::Bottom => last,
    }
}

fn further_up(position: usize, distance: usize) -> (result: usize)
    ensures
        result == num::max_int(position - distance, 0),
{
    if position > distance {
        position - distance
    } else {
        0
    }
}

fn further_down(position: usize, distance: usize, last: usize) -> (result: usize)
    ensures
        result == num::min_int(position + distance, last as int),
{
    if distance > usize::MAX - position {
        last
    } else {
        num::min_usize(position + distance, last)
    }
}

/// What becomes of the buttons' position.
#[derive(Clone, Copy, Debug, PartialEq, Eq, Structural)]
pub enum ButtonScrollStep {
    /// There is nothing to scroll; the position is the first one.
    Reset,
    Unchanged,
    MoveTo(usize),
}

pub open spec fn step_to(current: int, position: int) -> ButtonScrollStep {
    if position == current {
        ButtonScrollStep::Unchanged
    } else {
        ButtonScrollStep::MoveTo(position as usize)
    }
}

fn scroll_to(current: usize, position: usize) -> (step: ButtonScrollStep)
    ensures
        step == step_to(current as int, position as int),
{
    if position == current {
        ButtonScrollStep::Unchanged
    } else {
        ButtonScrollStep::MoveTo(position)
    }
}

/// Answers a request of the buttons' scroll bar.
pub fn scroll_command_buttons(scroll: Option<ButtonScroll>, request: CommandButtonScrollRequest) -> (step:
    ButtonScrollStep)
    ensures
        step == match scroll {
            None => ButtonScrollStep::Reset,
            Some(scroll) => step_to(scroll.position as int, requested_position(scroll, request)),
        },
{
    let scroll = match scroll {
        Some(scroll) => scroll,
        None => return ButtonScrollStep::Reset,
    };
    let page = num::max_usize(scroll.page_len, 1);
    let last = scroll.max_position;
    let next = match request {
        CommandButtonScrollRequest::LineUp => further_up(scroll.position, 1),
        CommandButtonScrollRequest::LineDown => further_down(scroll.position, 1, last),
        CommandButtonScrollRequest::PageUp => further_up(scroll.position, page),
        CommandButtonScrollRequest::PageDown => further_down(scroll.position, page, last),
        CommandButtonScrollRequest::Absolute(position) => num::min_usize(position, last),
        CommandButtonScrollRequest::Top => 0,
        CommandButtonScrollRequest::Bottom => last,
    };
    scroll_to(scroll.position, next)
}

/// Scrolls the buttons by some lines.
pub fn scroll_command_buttons_by_lines(scroll: Option<ButtonScroll>, line_delta: i32) -> (step:
    ButtonScrollStep)
    ensures
        step == match scroll {
            None => ButtonScrollStep::Reset,
            Some(scroll) => step_to(
                scroll.position as int,
                scrolled(scroll.position as int, scroll.max_position as int, line_delta as int),
            ),
        },
{
    match scroll {
        Some(scroll) => scroll_to(
            scroll.position,
            scrolled_position_by_lines(scroll.position, scroll.max_position, line_delta),
        ),
        None => ButtonScrollStep::Reset,
    }
}

/// What is asked of the terminal's scroll bar.
#[derive(Clone, Copy, Debug, PartialEq, Eq, Structural)]
pub enum TerminalScrollBarRequest {
    LineUp,
    LineDown,
    PageUp,
    PageDown,
    Absolute(usize),
    Top,
    Bottom,
}

/// How the display is moved on a request of its scroll bar, which counts from
/// the top while the display counts from the bottom.
pub fn terminal_scroll_request(scroll: TerminalScrollState, request: TerminalScrollBarRequest) -> (moved:
    TerminalScroll)
    ensures
        moved == match request {
            TerminalScrollBarRequest::LineUp => TerminalScroll::Lines(1),
            TerminalScrollBarRequest::LineDown => TerminalScroll::Lines(-1i32),
            TerminalScrollBarRequest::PageUp => TerminalScroll::PageUp,
            TerminalScrollBarRequest::PageDown => TerminalScroll::PageDown,
            TerminalScrollBarRequest::Absolute(position) => TerminalScroll::Absolute(
                num::max_int(scroll.max_position - position, 0) as usize,
            ),
            TerminalScrollBarRequest::Top => TerminalScroll::Top,
            TerminalScrollBarRequest::Bottom => TerminalScroll::Bottom,
        },
{
    match request {
        TerminalScrollBarRequest::LineUp => TerminalScroll::Lines(1),
        TerminalScrollBarRequest::LineDown => TerminalScroll::Lines(-1),
        TerminalScrollBarRequest::PageUp => TerminalScroll::PageUp,
        TerminalScrollBarRequest::PageDown => TerminalScroll::PageDown,
        TerminalScrollBarRequest::Absolute(position) => TerminalScroll::Absolute(
            further_up(scroll.max_position, position),
        ),
        TerminalScrollBarRequest::Top => TerminalScroll::Top,
        TerminalScrollBarRequest::Bottom => TerminalScroll::Bottom,
    }
}

/// What a scroll bar shows.
#[derive(Clone, Copy, Debug, PartialEq, Eq, Structural)]
pub struct ScrollBarValues {
    pub upper: usize,
    pub page: usize,
    pub value: usize,
}

/// What the buttons' scroll bar shows.
pub fn command_scrollbar_values(scroll: ButtonScroll) -> (values: ScrollBarValues)
    ensures
        values.upper == num::max_int(scroll.total_len as int, 1),
        values.page == num::max_int(scroll.page_len as int, 1),
        values.value == scroll.position,
{
    ScrollBarValues {
        upper: num::max_usize(scroll.total_len, 1),
        page: num::max_usize(scroll.page_len, 1),
        value: scroll.position,
    }
}

/// What the terminal's scroll bar shows.
pub fn terminal_scrollbar_values(scroll: TerminalScrollState) -> (values: ScrollBarValues)
    ensures
        values.upper == num::max_int(scroll.total_len as int, 1),
        values.page == num::max_int(scroll.page_len as int, 1),
        values.value == num::max_int(scroll.max_position - scroll.position, 0),
{
    ScrollBarValues {
        upper: num::max_usize(scroll.total_len, 1),
        page: num::max_usize(scroll.page_len, 1),
        value: further_up(scroll.max_position, scroll.position),
    }
}

/// Dragging the terminal's scroll bar to where it is leaves the display where
/// it is.
pub proof fn law_scroll_bar_mirrors_the_display(scroll: TerminalScrollState)
    requires
        scroll.position <= scroll.max_position,
    ensures
        num::max_int(
            scroll.max_position - num::max_int(scroll.max_position - scroll.position, 0),
            0,
        ) == scroll.position,
{
}

/// Scrolling by lines moves by as many as there are left in that direction: all of them
/// where they are there, and to the end otherwise. Going there and back ends where it
/// began, where no end is met.
pub proof fn law_lines_are_scrolled_up_to_the_ends(current: int, last: int, lines: int)
    requires
        0 <= current <= last,
    ensures
        0 <= scrolled(current, last, lines) <= last,
        0 <= current + lines <= last ==> scrolled(current, last, lines) == current + lines,
        current + lines > last ==> scrolled(current, last, lines) == last,
        current + lines < 0 ==> scrolled(current, last, lines) == 0,
        0 <= current + lines <= last ==> scrolled(
            scrolled(current, last, lines),
            last,
            -lines,
        ) == current,
{
}

/// A wheel counts in whole notches, the started one counting where it is the only one.
/// Each notch moves by three lines.
pub proof fn law_wheel_counts_whole_notches(delta: int, notches: int)
    ensures
        delta >= 120 ==> 120 * wheel_steps(delta) <= delta < 120 * (wheel_steps(delta) + 1),
        0 < delta < 120 ==> wheel_steps(delta) == 1,
        wheel_steps(0) == 0,
        wheel_steps(120 * notches) == notches,
        wheel_lines(120 * notches) == 3 * notches,
{
}

/// What is asked of the buttons' scroll bar is done as far as there are buttons: no request
/// leads beyond the first or the last position, a line and a page up undo a line and a page
/// down where no end is met, and a position that is asked for is reached where it exists.
pub proof fn law_scroll_requests_are_met(scroll: ButtonScroll, position: usize)
    requires
        scroll.position <= scroll.max_position,
    ensures
        ({
            let at = scroll.position as int;
            let last = scroll.max_position as int;
            let page = if scroll.page_len == 0 {
                1
            } else {
                scroll.page_len as int
            };
            let line_up = requested_position(scroll, CommandButtonScrollRequest::LineUp);
            let line_down = requested_position(scroll, CommandButtonScrollRequest::LineDown);
            let page_up = requested_position(scroll, CommandButtonScrollRequest::PageUp);
            let page_down = requested_position(scroll, CommandButtonScrollRequest::PageDown);
            let absolute = requested_position(
                scroll,
                CommandButtonScrollRequest::Absolute(position),
            );
            &&& 0 <= line_up <= at <= line_down <= last
            &&& 0 <= page_up <= at <= page_down <= last
            &&& at > 0 ==> line_up == at - 1
            &&& at < last ==> line_down == at + 1
            &&& at >= page ==> page_up == at - page
            &&& at < page ==> page_up == 0
            &&& at + page <= last ==> page_down == at + page
            &&& at + page > last ==> page_down == last
            &&& 0 <= absolute <= last
            &&& position <= last ==> absolute == position
            &&& position > last ==> absolute == last
            &&& requested_position(scroll, CommandButtonScrollRequest::Top) == 0
            &&& requested_position(scroll, CommandButtonScrollRequest::Bottom) == last
        }),
{
}

/// The buttons move exactly where a request leads elsewhere, and then to where it leads.
pub proof fn law_buttons_move_where_a_request_leads(current: usize, position: usize)
    ensures
        step_to(current as int, position as int) is Unchanged <==> current == position,
        current != position ==> step_to(current as int, position as int)
            == ButtonScrollStep::MoveTo(position),
{
}

} // verus!
