//! The bar that runs back and forth while the computer thinks: where it
//! stands at a given time.

use vstd::prelude::*;

verus! {

/// Nanoseconds between two steps of the bar.
pub const FRAME_NANOS: i64 = 50_000_000;

/// The number of steps in one run of a bar of `width` cells forth and back
/// across `area_width` cells. A bar wider than the area is cut to it.
pub open spec fn frame_count(width: int, area_width: int) -> int {
    (area_width - bar_width(width, area_width)) * 2 + 1
}

/// The width of the bar as drawn: `width`, but no more than the area has.
pub open spec fn bar_width(width: int, area_width: int) -> int {
    if width <= area_width {
        width
    } else {
        area_width
    }
}

/// The first cell of the bar at step `pos` of `count`: it moves right for
/// the first half of the run and back for the second.
pub open spec fn bar_offset(pos: int, count: int) -> int {
    if pos > count / 2 {
        count - pos - 1
    } else {
        pos
    }
}

/// The mathematical model of a bar's state.
pub struct SpinnerModel {
    /// The time of the next step, in nanoseconds.
    pub next_draw: int,
    /// The step of the run that the bar is at.
    pub pos: int,
    /// The width of the bar.
    pub width: int,
}

impl SpinnerModel {
    /// The bar can be asked where it stands at time `now` in an area of
    /// `area_width` cells: the time leaves room for one more frame, the
    /// number of steps of a run fits the counter, and the bar is within its
    /// run or about to step.
    pub open spec fn admits(self, now: int, area_width: int) -> bool {
        &&& now <= i64::MAX - FRAME_NANOS
        &&& frame_count(self.width, area_width) <= u16::MAX
        &&& now < self.next_draw ==> self.pos < frame_count(self.width, area_width)
    }

    /// The state at time `now` in an area of `area_width` cells: one step on
    /// if the time of the next step has come, and the same otherwise. After
    /// the last step of a run comes the first.
    pub open spec fn at(self, now: int, area_width: int) -> SpinnerModel {
        if now >= self.next_draw {
            SpinnerModel {
                next_draw: self.next_draw + FRAME_NANOS,
                pos: if self.pos + 1 >= frame_count(self.width, area_width) {
                    0
                } else {
                    self.pos + 1
                },
                width: self.width,
            }
        } else {
            self
        }
    }
}

/// The state of the bar.
#[derive(Debug)]
pub struct SpinnerState {
    next_draw: i64,
    pos: u16,
    width: u16,
}

impl View for SpinnerState {
    type V = SpinnerModel;

    closed spec fn view(&self) -> SpinnerModel {
        SpinnerModel {
            next_draw: self.next_draw as int,
            pos: self.pos as int,
            width: self.width as int,
        }
    }
}

impl SpinnerState {
    /// A bar of `width` cells at the start of its run, to be stepped from
    /// the time `now` on. Times are in nanoseconds.
    pub fn new(width: u16, now: i64) -> (state: Self)
        ensures
            state@ == (SpinnerModel { next_draw: now as int, pos: 0, width: width as int }),
    {
        Self { next_draw: now, pos: 0, width }
    }

    /// Whether `advance` may be called at time `now` for an area of
    /// `area_width` cells.
    pub fn fits(&self, now: i64, area_width: u16) -> (ok: bool)
        ensures
            ok == self@.admits(now as int, area_width as int),
    {
        let width = if self.width <= area_width {
            self.width
        } else {
            area_width
        };
        if now > i64::MAX - FRAME_NANOS || area_width - width > 32767 {
            return false;
        }
        let max_count = (area_width - width) * 2 + 1;
        now >= self.next_draw || self.pos < max_count
    }

    /// Steps the bar if its time has come, and tells which cells of an area
    /// of `area_width` cells it covers now: those from `span.0` up to, not
    /// including, `span.1`.
    pub fn advance(&mut self, now: i64, area_width: u16) -> (span: (u16, u16))
        requires
            old(self)@.admits(now as int, area_width as int),
        ensures
            final(self)@ == old(self)@.at(now as int, area_width as int),
            span.0 == bar_offset(
                final(self)@.pos,
                frame_count(old(self)@.width, area_width as int),
            ),
            span.1 == span.0 + bar_width(old(self)@.width, area_width as int),
            span.1 <= area_width,
    {
        let width = if self.width <= area_width {
            self.width
        } else {
            area_width
        };
        let max_count = (area_width - width) * 2 + 1;
        if now >= self.next_draw {
            self.next_draw = self.next_draw + FRAME_NANOS;
            if self.pos >= max_count - 1 {
                self.pos = 0;
            } else {
                self.pos = self.pos + 1;
            }
        }
        let offset = if self.pos > max_count / 2 {
            max_count - self.pos - 1
        } else {
            self.pos
        };
        (offset, offset + width)
    }
}

} // verus!
