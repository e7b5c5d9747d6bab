//! The policy-level view of a single on-screen window.
//!
//! The compositor owns the real surface; everything this core reads from the
//! compositor's per-window handle (title, type, state flags, geometry, size
//! bounds, parent-presence) is mirrored here as the plain-value
//! [`WindowInfo`].  The surrounding event glue keeps a window's `WindowInfo`
//! in step with what the compositor reports, and forwards the mutations
//! (`resize`, `move_to`) to the real surface.

use vstd::prelude::*;

use crate::geometry::{Point, Size};
use crate::ids::{Id, IdGenerator};

verus! {

/// The compositor-reported type classification of a window.
#[derive(Clone, Copy, PartialEq, Eq, Structural, Debug)]
pub enum WindowType {
    Normal,
    Freestyle,
    Dialog,
    Utility,
    Menu,
    Satellite,
    Tip,
    Decoration,
}

/// The compositor-reported state of a window.
#[derive(Clone, Copy, PartialEq, Eq, Structural, Debug)]
pub enum WindowState {
    Restored,
    Maximized,
    Minimized,
    Fullscreen,
    Attached,
    Hidden,
}

/// What the compositor's per-window handle currently reports.
///
/// `handle` identifies the compositor-side object, so that a window can be
/// found again when the compositor hands an event over by handle.
#[derive(Debug)]
pub struct WindowInfo {
    pub handle: u64,
    pub title: String,
    pub window_type: WindowType,
    pub state: WindowState,
    pub has_parent: bool,
    pub top_left: Point,
    pub size: Size,
    pub min_width: i32,
    pub max_width: i32,
    pub min_height: i32,
    pub max_height: i32,
}

/// Titles of known special-purpose utility windows that are exempt from
/// tiling even though they would otherwise qualify (a policy escape hatch
/// for utility launchers).
pub open spec fn spec_tiling_exempt_title(title: Seq<char>) -> bool {
    title == "Ulauncher window title"@
}

/// Whether the given title stands on the tiling exemption list.
pub fn tiling_exempt_title(title: &String) -> (r: bool)
    ensures
        r == spec_tiling_exempt_title(title@),
{
    *title == String::from_str("Ulauncher window title")
}

/// One dimension clamped into the compositor-reported `[min, max]` bounds;
/// when the bounds are contradictory (`min > max`), `min` wins.
pub open spec fn spec_clamp_dim(v: i32, min: i32, max: i32) -> i32 {
    let capped = if v <= max {
        v
    } else {
        max
    };
    if capped >= min {
        capped
    } else {
        min
    }
}

fn clamp_dim(v: i32, min: i32, max: i32) -> (r: i32)
    ensures
        r == spec_clamp_dim(v, min, max),
{
    let capped = if v <= max {
        v
    } else {
        max
    };
    if capped >= min {
        capped
    } else {
        min
    }
}

/// A window as this core tracks it: its id, the workspace it belongs to, the
/// mirrored compositor handle state, a cached position, the advisory cached
/// size used for clamping, and whether a drag gesture currently moves it.
#[derive(Debug)]
pub struct Window {
    pub id: Id,
    pub workspace: Id,
    pub window_info: WindowInfo,
    pub x: i32,
    pub y: i32,
    pub size: Size,
    pub is_dragged: bool,
}

impl Window {
    /// A window participates in tiling iff it has no parent, its type is
    /// normal or freestyle, its state is neither fullscreen nor attached,
    /// and its title is not on the exemption list.  This is a pure function
    /// of the current compositor-reported state: nothing is cached, so a
    /// reclassification (a window entering fullscreen) is observed live.
    pub open spec fn spec_is_tiled(self) -> bool {
        &&& !spec_tiling_exempt_title(self.window_info.title@)
        &&& !self.window_info.has_parent
        &&& (self.window_info.window_type == WindowType::Normal
            || self.window_info.window_type == WindowType::Freestyle)
        &&& self.window_info.state != WindowState::Fullscreen
        &&& self.window_info.state != WindowState::Attached
    }

    /// The requested size with each dimension clamped independently into the
    /// window's compositor-reported bounds.
    pub open spec fn spec_clamped_size(self, size: Size) -> Size {
        Size {
            width: spec_clamp_dim(size.width, self.window_info.min_width, self.window_info.max_width),
            height: spec_clamp_dim(
                size.height,
                self.window_info.min_height,
                self.window_info.max_height,
            ),
        }
    }

    pub fn new(id_generator: &mut IdGenerator, workspace: Id, window_info: WindowInfo) -> (r:
        Window)
        requires
            old(id_generator).spec_next_id() < Id::MAX,
        ensures
            r.id == old(id_generator).spec_next_id(),
            final(id_generator).spec_next_id() == old(id_generator).spec_next_id() + 1,
            old(id_generator).wf() ==> final(id_generator).wf() && r.id >= 1,
            r.workspace == workspace,
            r.window_info == window_info,
            r.x == 0 && r.y == 0,
            r.size == (Size { width: 0, height: 0 }),
            !r.is_dragged,
    {
        Window {
            id: id_generator.next_id(),
            workspace,
            window_info,
            x: 0,
            y: 0,
            size: Size { width: 0, height: 0 },
            is_dragged: false,
        }
    }

    /// The compositor-reported title.
    pub fn name(&self) -> (r: String)
        ensures
            r@ == self.window_info.title@,
    {
        self.window_info.title.clone()
    }

    pub fn x(&self) -> (r: i32)
        ensures
            r == self.window_info.top_left.x,
    {
        self.window_info.top_left.x
    }

    pub fn y(&self) -> (r: i32)
        ensures
            r == self.window_info.top_left.y,
    {
        self.window_info.top_left.y
    }

    pub fn width(&self) -> (r: i32)
        ensures
            r == self.window_info.size.width,
    {
        self.window_info.size.width
    }

    pub fn height(&self) -> (r: i32)
        ensures
            r == self.window_info.size.height,
    {
        self.window_info.size.height
    }

    /// The position the compositor currently renders the window at.
    pub fn rendered_top_left(&self) -> (r: Point)
        ensures
            r == self.window_info.top_left,
    {
        Point { x: self.x(), y: self.y() }
    }

    /// The size the compositor currently renders the window at.
    pub fn rendered_size(&self) -> (r: Size)
        ensures
            r == self.window_info.size,
    {
        Size { width: self.width(), height: self.height() }
    }

    pub fn max_height(&self) -> (r: i32)
        ensures
            r == self.window_info.max_height,
    {
        self.window_info.max_height
    }

    pub fn min_height(&self) -> (r: i32)
        ensures
            r == self.window_info.min_height,
    {
        self.window_info.min_height
    }

    pub fn max_width(&self) -> (r: i32)
        ensures
            r == self.window_info.max_width,
    {
        self.window_info.max_width
    }

    pub fn min_width(&self) -> (r: i32)
        ensures
            r == self.window_info.min_width,
    {
        self.window_info.min_width
    }

    /// Clamps each dimension of the requested size independently into the
    /// compositor-reported `[min, max]` bounds and stores the result as the
    /// advisory cached size.  Must run before any resize is issued.
    pub fn set_size(&mut self, size: Size)
        ensures
            *final(self) == (Window { size: old(self).spec_clamped_size(size), ..*old(self) }),
    {
        let clamped = Size {
            width: clamp_dim(size.width, self.window_info.min_width, self.window_info.max_width),
            height: clamp_dim(
                size.height,
                self.window_info.min_height,
                self.window_info.max_height,
            ),
        };
        self.size = clamped;
    }

    /// Applies `set_size`, then issues the clamped size to the compositor;
    /// the handle thereafter reports the new size.
    pub fn resize(&mut self, size: Size)
        ensures
            final(self).size == old(self).spec_clamped_size(size),
            final(self).window_info.size == old(self).spec_clamped_size(size),
            *final(self) == (Window {
                size: final(self).size,
                window_info: WindowInfo { size: final(self).window_info.size, ..old(self).window_info },
                ..*old(self)
            }),
    {
        self.set_size(size);
        self.window_info.size = self.size;
    }

    /// Issues an unclamped move to the compositor; the handle thereafter
    /// reports the new position.  Size bounds constrain sizes only, never
    /// positions.
    pub fn move_to(&mut self, x: i32, y: i32)
        ensures
            *final(self) == (Window {
                window_info: WindowInfo {
                    top_left: Point { x, y },
                    ..old(self).window_info
                },
                ..*old(self)
            }),
    {
        self.window_info.top_left = Point { x, y };
    }

    pub fn type_(&self) -> (r: WindowType)
        ensures
            r == self.window_info.window_type,
    {
        self.window_info.window_type
    }

    pub fn state(&self) -> (r: WindowState)
        ensures
            r == self.window_info.state,
    {
        self.window_info.state
    }

    pub fn has_parent(&self) -> (r: bool)
        ensures
            r == self.window_info.has_parent,
    {
        self.window_info.has_parent
    }

    /// Executable tiling classification; see [`Window::spec_is_tiled`].
    pub fn is_tiled(&self) -> (r: bool)
        ensures
            r == self.spec_is_tiled(),
    {
        !tiling_exempt_title(&self.window_info.title) && !self.has_parent() && (self.type_()
            == WindowType::Normal || self.type_() == WindowType::Freestyle) && self.state()
            != WindowState::Fullscreen && self.state() != WindowState::Attached
    }
}

} // verus!
