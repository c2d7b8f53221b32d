//! The data of the sampling geometry: displays, their sides, the LEDs and
//! indents of each side, and the rectangles that come out.

use vstd::prelude::*;

verus! {

/// Pixel dimensions of one display.
#[derive(Clone, Copy, Debug, PartialEq, Eq, Structural)]
pub struct MonitorRes {
    pub width: i32,
    pub height: i32,
}

/// One side of a display. LEDs are wired in the order of the variants: up the
/// left side, along the top from left to right, down the right side, and along
/// the bottom from right to left.
#[derive(Clone, Copy, Debug, PartialEq, Eq, Structural)]
pub enum Edge {
    Left,
    Up,
    Right,
    Down,
}

/// Number of LEDs on each side of one display.
#[derive(Clone, Copy, Debug, PartialEq, Eq, Structural)]
pub struct EdgeLeds {
    pub left: i32,
    pub up: i32,
    pub right: i32,
    pub down: i32,
}

/// Pixels left unsampled at both ends of each side of one display. A field is
/// named after its side and then after the end it belongs to.
#[derive(Clone, Copy, Debug, PartialEq, Eq, Structural)]
pub struct EdgeIndent {
    pub left_up: i32,
    pub left_down: i32,
    pub up_left: i32,
    pub up_right: i32,
    pub right_up: i32,
    pub right_down: i32,
    pub down_left: i32,
    pub down_right: i32,
}

/// A region of the captured frame, in pixels. It covers the columns
/// `x1..x2` and the rows `y1..y2`.
#[derive(Clone, Copy, Debug, PartialEq, Eq, Structural)]
pub struct SamplingRectangle {
    pub x1: i32,
    pub y1: i32,
    pub x2: i32,
    pub y2: i32,
}

/// What can be wrong with one side of a display.
#[derive(Clone, Copy, Debug, PartialEq, Eq, Structural)]
pub enum EdgeFault {
    /// The side has no LEDs, or a negative number of them.
    LedCount,
    /// One of the two indents is negative.
    Indent,
    /// The indents leave no pixel between them.
    Span,
}

/// What can be wrong with the layout of one display.
#[derive(Clone, Copy, Debug, PartialEq, Eq, Structural)]
pub enum Fault {
    /// One of the per-display lists has no entry for the display.
    MissingEntry,
    /// The sampling thickness is zero or negative.
    Thickness,
    /// A side of the display is faulty.
    Side(Edge, EdgeFault),
}

/// A layout that cannot be turned into sampling rectangles: the first display
/// with a fault, and that fault.
#[derive(Clone, Copy, Debug, PartialEq, Eq, Structural)]
pub struct ConfigurationError {
    pub monitor: usize,
    pub fault: Fault,
}

/// LED counts of all displays, one list per side; entry `i` of each list
/// belongs to display `i`.
#[derive(Debug, PartialEq, Eq)]
pub struct Led {
    pub left: Vec<i32>,
    pub up: Vec<i32>,
    pub right: Vec<i32>,
    pub down: Vec<i32>,
}

/// Indents of all displays, one list per side and end; entry `i` of each list
/// belongs to display `i`.
#[derive(Debug, PartialEq, Eq)]
pub struct Indent {
    pub left_up: Vec<i32>,
    pub left_down: Vec<i32>,
    pub up_left: Vec<i32>,
    pub up_right: Vec<i32>,
    pub right_up: Vec<i32>,
    pub right_down: Vec<i32>,
    pub down_left: Vec<i32>,
    pub down_right: Vec<i32>,
}

/// A rectangle over the mathematical integers: the view of a
/// `SamplingRectangle`.
pub struct Rect {
    pub x1: int,
    pub y1: int,
    pub x2: int,
    pub y2: int,
}

impl Rect {
    /// The rectangle holds at least one pixel.
    pub open spec fn has_pixels(self) -> bool {
        self.x1 < self.x2 && self.y1 < self.y2
    }

    /// The rectangle ends no earlier than it starts, in both directions.
    pub open spec fn not_inverted(self) -> bool {
        self.x1 <= self.x2 && self.y1 <= self.y2
    }
}

impl View for SamplingRectangle {
    type V = Rect;

    open spec fn view(&self) -> Rect {
        Rect { x1: self.x1 as int, y1: self.y1 as int, x2: self.x2 as int, y2: self.y2 as int }
    }
}

impl Led {
    /// Every list has an entry for display `i`.
    pub open spec fn covers(&self, i: int) -> bool {
        &&& 0 <= i < self.left@.len()
        &&& i < self.up@.len()
        &&& i < self.right@.len()
        &&& i < self.down@.len()
    }

    /// The LED counts of display `i`.
    pub open spec fn at(&self, i: int) -> EdgeLeds {
        EdgeLeds {
            left: self.left@[i],
            up: self.up@[i],
            right: self.right@[i],
            down: self.down@[i],
        }
    }

    /// The LED counts of display `i`, if every list has an entry for it.
    pub fn get(&self, i: usize) -> (r: Option<EdgeLeds>)
        ensures
            r is Some <==> self.covers(i as int),
            r is Some ==> r->0 == self.at(i as int),
    {
        if i < self.left.len() && i < self.up.len() && i < self.right.len() && i < self.down.len() {
            Some(
                EdgeLeds {
                    left: self.left[i],
                    up: self.up[i],
                    right: self.right[i],
                    down: self.down[i],
                },
            )
        } else {
            None
        }
    }
}

impl Indent {
    /// Every list has an entry for display `i`.
    pub open spec fn covers(&self, i: int) -> bool {
        &&& 0 <= i < self.left_up@.len()
        &&& i < self.left_down@.len()
        &&& i < self.up_left@.len()
        &&& i < self.up_right@.len()
        &&& i < self.right_up@.len()
        &&& i < self.right_down@.len()
        &&& i < self.down_left@.len()
        &&& i < self.down_right@.len()
    }

    /// The indents of display `i`.
    pub open spec fn at(&self, i: int) -> EdgeIndent {
        EdgeIndent {
            left_up: self.left_up@[i],
            left_down: self.left_down@[i],
            up_left: self.up_left@[i],
            up_right: self.up_right@[i],
            right_up: self.right_up@[i],
            right_down: self.right_down@[i],
            down_left: self.down_left@[i],
            down_right: self.down_right@[i],
        }
    }

    /// The indents of display `i`, if every list has an entry for it.
    pub fn get(&self, i: usize) -> (r: Option<EdgeIndent>)
        ensures
            r is Some <==> self.covers(i as int),
            r is Some ==> r->0 == self.at(i as int),
    {
        if i < self.left_up.len() && i < self.left_down.len() && i < self.up_left.len() && i
            < self.up_right.len() && i < self.right_up.len() && i < self.right_down.len() && i
            < self.down_left.len() && i < self.down_right.len() {
            Some(
                EdgeIndent {
                    left_up: self.left_up[i],
                    left_down: self.left_down[i],
                    up_left: self.up_left[i],
                    up_right: self.up_right[i],
                    right_up: self.right_up[i],
                    right_down: self.right_down[i],
                    down_left: self.down_left[i],
                    down_right: self.down_right[i],
                },
            )
        } else {
            None
        }
    }
}

} // verus!
