//! Short slide-in of page contents, advanced by real time.

use std::time::Duration;

use vstd::prelude::*;

use crate::text_view::{duration_nanos, min_int, nanos_of};

verus! {

/// Length of one page transition, in nanoseconds.
pub const TRANSITION_NANOS: u128 = 150_000_000;

/// Length of one page transition, in milliseconds.
pub const TRANSITION_MILLIS: u128 = 150;

/// Most columns a transition moves the page on wide terminals.
pub const MAX_OFFSET: u16 = 3;

/// A rectangle of terminal cells.
#[derive(Clone, Copy, Debug, PartialEq, Eq, Structural)]
pub struct Rect {
    /// Left column.
    pub x: u16,
    /// Top row.
    pub y: u16,
    /// Columns.
    pub width: u16,
    /// Rows.
    pub height: u16,
}

/// Side the new page enters from.
#[derive(Clone, Copy, Debug, PartialEq, Eq, Structural)]
pub enum TransitionDirection {
    /// From the right.
    Forward,
    /// From the left.
    Backward,
}

/// A page transition the event loop advances by real time.
#[derive(Clone, Copy, Debug, PartialEq, Eq, Structural)]
pub struct UiTransition {
    direction: TransitionDirection,
    remaining: u128,
}

/// Columns the page is moved by when `remaining` nanoseconds of the transition are left on a
/// terminal `width` columns wide: proportional to the time left, rounded up, at most one
/// column on narrow terminals and three on wide ones.
pub open spec fn slide_offset(remaining: int, width: int) -> int {
    if remaining == 0 {
        0
    } else {
        let maximum: int = if width < 48 {
            1
        } else {
            MAX_OFFSET as int
        };
        let millis = remaining / 1_000_000;
        min_int((millis * maximum + TRANSITION_MILLIS - 1) / (TRANSITION_MILLIS as int), maximum)
    }
}

impl UiTransition {
    /// Direction of the current transition.
    pub closed spec fn heading(self) -> TransitionDirection {
        self.direction
    }

    /// Nanoseconds left of the current transition.
    pub closed spec fn time_left(self) -> int {
        self.remaining as int
    }

    /// No transition running.
    pub fn new() -> (result: UiTransition)
        ensures
            result.heading() == TransitionDirection::Forward,
            result.time_left() == 0,
    {
        UiTransition { direction: TransitionDirection::Forward, remaining: 0 }
    }

    /// Starts a transition from the given side.
    pub fn start(&mut self, direction: TransitionDirection)
        ensures
            final(self).heading() == direction,
            final(self).time_left() == TRANSITION_NANOS,
    {
        self.direction = direction;
        self.remaining = TRANSITION_NANOS;
    }

    /// Advances the transition; returns whether the frame changes.
    pub fn advance(&mut self, elapsed: Duration) -> (result: bool)
        ensures
            result == (old(self).time_left() != 0),
            final(self).heading() == old(self).heading(),
            final(self).time_left() == (if old(self).time_left() == 0 {
                0
            } else if old(self).time_left() > duration_nanos(elapsed) {
                old(self).time_left() - duration_nanos(elapsed)
            } else {
                0
            }),
    {
        if self.remaining == 0 {
            return false;
        }
        self.remaining = self.remaining.saturating_sub(nanos_of(elapsed));
        true
    }

    /// Whether a transition is still running.
    pub fn active(self) -> (result: bool)
        ensures
            result == (self.time_left() != 0),
    {
        self.remaining != 0
    }

    /// Columns the page is moved by in the current frame.
    fn offset(self, width: u16) -> (result: u16)
        ensures
            result == slide_offset(self.time_left(), width as int),
    {
        if self.remaining == 0 {
            return 0;
        }
        let maximum: u128 = if width < 48 {
            1
        } else {
            MAX_OFFSET as u128
        };
        let millis = self.remaining / 1_000_000;
        assert(millis <= u128::MAX / 1_000_000);
        let scaled = (millis * maximum + TRANSITION_MILLIS - 1) / TRANSITION_MILLIS;
        if scaled < maximum {
            scaled as u16
        } else {
            maximum as u16
        }
    }

    /// Area the page contents use in the current frame.
    pub fn content_area(self, area: Rect) -> (result: Rect)
        ensures
            ({
                let offset = slide_offset(self.time_left(), area.width as int);
                if offset == 0 {
                    result == area
                } else {
                    let width = if area.width > offset {
                        area.width - offset
                    } else {
                        0
                    };
                    match self.heading() {
                        TransitionDirection::Forward => result == Rect {
                            x: min_int(area.x + offset, u16::MAX as int) as u16,
                            width: width as u16,
                            ..area
                        },
                        TransitionDirection::Backward => result == Rect { width: width as u16, ..area },
                    }
                }
            }),
    {
        let offset = self.offset(area.width);
        if offset == 0 {
            return area;
        }
        match self.direction {
            TransitionDirection::Forward => Rect {
                x: area.x.saturating_add(offset),
                width: area.width.saturating_sub(offset),
                ..area
            },
            TransitionDirection::Backward => Rect { width: area.width.saturating_sub(offset), ..area },
        }
    }
}

/// The page never moves by more than three columns, by at most one on narrow terminals, and
/// not at all once the transition has ended.
pub proof fn lemma_offset_bounded(remaining: int, width: int)
    requires
        0 <= remaining,
    ensures
        0 <= slide_offset(remaining, width) <= MAX_OFFSET,
        width < 48 ==> slide_offset(remaining, width) <= 1,
        remaining == 0 ==> slide_offset(remaining, width) == 0,
{
    if remaining > 0 {
        let maximum: int = if width < 48 {
            1
        } else {
            MAX_OFFSET as int
        };
        let millis = remaining / 1_000_000;
        assert(millis >= 0);
        assert((millis * maximum + TRANSITION_MILLIS - 1) / (TRANSITION_MILLIS as int) >= 0) by (nonlinear_arith)
            requires
                millis >= 0,
                maximum >= 1,
        ;
    }
}

} // verus!
