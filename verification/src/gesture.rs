//! Transient state of an in-progress pointer-driven move or resize.
//!
//! A gesture is pure data: the window manager creates one on pointer-down
//! over a window's border or body and tears it down on pointer-up or when
//! the window is destroyed mid-gesture.  Movement and resize deltas during
//! the gesture are computed by the caller from the stored origin and the
//! current pointer position.

use vstd::prelude::*;

use crate::geometry::{Point, Size};
use crate::ids::Id;

verus! {

/// The raw pointer-button mask of the event that started a gesture, as the
/// compositor reports it.
pub type PointerButtons = u32;

/// The raw keyboard-modifier mask of the event that started a gesture, as
/// the compositor reports it.
pub type Modifiers = u32;

/// The raw code of the window edge a resize gesture drags, as the
/// compositor reports it.
pub type ResizeEdge = u32;

/// An in-progress pointer-driven resize of one window.
#[derive(Clone, Copy, PartialEq, Eq, Structural, Debug)]
pub struct ResizeGesture {
    pub window: Id,
    pub buttons: PointerButtons,
    pub modifiers: Modifiers,
    pub top_left: Point,
    pub size: Size,
    pub edge: ResizeEdge,
}

/// An in-progress pointer-driven move of one window.
#[derive(Clone, Copy, PartialEq, Eq, Structural, Debug)]
pub struct MoveGesture {
    pub window: Id,
    pub buttons: PointerButtons,
    pub modifiers: Modifiers,
    pub top_left: Point,
}

/// The single live gesture: at most one exists at any instant.
#[derive(Clone, Copy, PartialEq, Eq, Structural, Debug)]
pub enum Gesture {
    Resize(ResizeGesture),
    Move(MoveGesture),
    Idle,
}

} // verus!
