//! Plain geometry values: points, sizes and rectangles, as the compositor
//! reports them.

use vstd::prelude::*;

verus! {

/// A position on screen, in pixels.
#[derive(Clone, Copy, PartialEq, Eq, Structural, Debug)]
pub struct Point {
    pub x: i32,
    pub y: i32,
}

/// The extent of a window or monitor, in pixels.
#[derive(Clone, Copy, PartialEq, Eq, Structural, Debug)]
pub struct Size {
    pub width: i32,
    pub height: i32,
}

/// A rectangular region of the screen.
#[derive(Clone, Copy, PartialEq, Eq, Structural, Debug)]
pub struct Rectangle {
    pub top_left: Point,
    pub size: Size,
}

} // verus!
