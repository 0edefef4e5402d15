//! The state that the manager keeps for one window.

use vstd::prelude::*;
use crate::size_hints::SizeHints;
use crate::tags::TagMask;
use crate::tags::Window;
use crate::tags::masks_overlap;

verus! {

/// Least height and width of a constrained window: the height of a status
/// bar, so that a window stays legible.
pub const MIN_WINDOW_SIZE: i32 = 20;

/// A rectangle on the screen.
#[derive(Clone, Copy, Debug, PartialEq, Eq, Structural)]
pub struct Rect {
    pub x: i32,
    pub y: i32,
    pub width: i32,
    pub height: i32,
}

/// A value as a signed 32-bit coordinate holds it: values beyond its range
/// are held at the nearest bound.
pub open spec fn held(value: int) -> int {
    if value > i32::MAX {
        i32::MAX as int
    } else if value < i32::MIN {
        i32::MIN as int
    } else {
        value
    }
}

/// Computes `held`.
pub fn hold(value: i64) -> (stored: i32)
    ensures
        stored == held(value as int),
{
    if value > 0x7fff_ffff {
        i32::MAX
    } else if value < -0x8000_0000 {
        i32::MIN
    } else {
        value as i32
    }
}

/// A length given without a sign, as a signed 32-bit length holds it.
pub fn hold_length(value: u32) -> (stored: i32)
    ensures
        stored == held(value as int),
        stored >= 0,
{
    if value > 0x7fff_ffff {
        i32::MAX
    } else {
        value as i32
    }
}

/// One managed window.
#[derive(Debug)]
pub struct Client {
    pub window: Window,
    pub name: String,
    pub x_position: i32,
    pub y_position: i32,
    pub width: i32,
    pub height: i32,
    pub border_width: i32,
    pub old_x_position: i32,
    pub old_y_position: i32,
    pub old_width: i32,
    pub old_height: i32,
    pub old_border_width: i32,
    pub old_state: bool,
    pub tags: TagMask,
    pub monitor_index: usize,
    pub is_floating: bool,
    pub is_fullscreen: bool,
    pub is_fixed: bool,
    pub is_urgent: bool,
    pub never_focus: bool,
    pub hints_valid: bool,
    pub hints: SizeHints,
}

/// Position and size that the constraint engine settles on.
#[derive(Clone, Copy, Debug, PartialEq, Eq, Structural)]
pub struct Constrained {
    pub x: i32,
    pub y: i32,
    pub width: i32,
    pub height: i32,
    pub changed: bool,
}

impl Client {
    /// Valid size hints can be applied.
    pub open spec fn wf(self) -> bool {
        self.hints_valid ==> self.hints.valid()
    }

    /// A new client at the origin with no size, no hints and no flag set.
    pub fn new(window: Window, monitor_index: usize, tags: TagMask) -> (client: Client)
        ensures
            client.wf(),
            client.window == window,
            client.monitor_index == monitor_index,
            client.tags == tags,
            client.name@ == Seq::<char>::empty(),
            client.x_position == 0 && client.y_position == 0 && client.width == 0
                && client.height == 0 && client.border_width == 0,
            client.old_x_position == 0 && client.old_y_position == 0 && client.old_width == 0
                && client.old_height == 0 && client.old_border_width == 0,
            !client.old_state && !client.is_floating && !client.is_fullscreen && !client.is_fixed
                && !client.is_urgent && !client.never_focus && !client.hints_valid,
            client.hints == SizeHints::unset(),
    {
        Client {
            window,
            name: String::new(),
            x_position: 0,
            y_position: 0,
            width: 0,
            height: 0,
            border_width: 0,
            old_x_position: 0,
            old_y_position: 0,
            old_width: 0,
            old_height: 0,
            old_border_width: 0,
            old_state: false,
            tags,
            monitor_index,
            is_floating: false,
            is_fullscreen: false,
            is_fixed: false,
            is_urgent: false,
            never_focus: false,
            hints_valid: false,
            hints: SizeHints::none(),
        }
    }

    /// Width of the window with its border on both sides.
    pub fn width_with_border(&self) -> (total: i32)
        ensures
            total == held(self.width + 2 * self.border_width),
    {
        hold(self.width as i64 + 2 * (self.border_width as i64))
    }

    /// The client is shown under the tag set `selected`.
    pub open spec fn shown_under(self, selected: TagMask) -> bool {
        masks_overlap(self.tags, selected)
    }

    pub fn is_shown_under(&self, selected: TagMask) -> (shown: bool)
        ensures
            shown == self.shown_under(selected),
    {
        self.tags & selected != 0
    }

    /// A proposed coordinate after it is held to the area along one axis: a
    /// window that starts at or beyond the far edge is put against that edge
    /// with its present extent, one that ends at or before the near edge is
    /// put at the near edge.
    pub open spec fn placed(
        position: int,
        extent: int,
        border: int,
        present_extent: int,
        near: int,
        span: int,
    ) -> int {
        let moved = if position >= near + span {
            held(near + span - (present_extent + 2 * border))
        } else {
            position
        };
        if moved + extent + 2 * border <= near {
            near
        } else {
            moved
        }
    }

    /// A proposed length raised to the least length of a window.
    pub open spec fn raised(length: int) -> int {
        if length < MIN_WINDOW_SIZE {
            MIN_WINDOW_SIZE as int
        } else {
            length
        }
    }

    /// The size hints are applied: they are valid and the window is free,
    /// that is floating or under the layout that arranges nothing.
    pub open spec fn hints_apply(self, free: bool) -> bool {
        free && self.hints_valid
    }

    /// The geometry that the rules settle on for a proposed one.  The size is
    /// at least 1, the window is held to the area, the size is raised to the
    /// least size of a window, and for a free window the size hints are
    /// applied.  `changed` tells whether the result differs from the
    /// geometry that the client has.
    pub open spec fn constrained(
        self,
        area: Rect,
        free: bool,
        x: i32,
        y: i32,
        width: i32,
        height: i32,
    ) -> Constrained {
        let wide = Self::raised(width as int);
        let high = Self::raised(height as int);
        let positive_width = if width < 1 {
            1
        } else {
            width as int
        };
        let positive_height = if height < 1 {
            1
        } else {
            height as int
        };
        let new_x = Self::placed(
            x as int,
            positive_width,
            self.border_width as int,
            self.width as int,
            area.x as int,
            area.width as int,
        );
        let new_y = Self::placed(
            y as int,
            positive_height,
            self.border_width as int,
            self.height as int,
            area.y as int,
            area.height as int,
        );
        let new_width = if self.hints_apply(free) {
            self.hints.allowed_width(wide, high)
        } else {
            wide
        };
        let new_height = if self.hints_apply(free) {
            self.hints.allowed_height(wide, high)
        } else {
            high
        };
        Constrained {
            x: new_x as i32,
            y: new_y as i32,
            width: new_width as i32,
            height: new_height as i32,
            changed: new_x != self.x_position || new_y != self.y_position || new_width
                != self.width || new_height != self.height,
        }
    }

    /// Computes `placed`.
    fn place(position: i32, extent: i32, border: i32, present_extent: i32, near: i32, span: i32) -> (result:
        i32)
        ensures
            result == Self::placed(
                position as int,
                extent as int,
                border as int,
                present_extent as int,
                near as int,
                span as int,
            ),
    {
        let far: i64 = near as i64 + span as i64;
        let moved: i32 = if position as i64 >= far {
            hold(far - (present_extent as i64 + 2 * (border as i64)))
        } else {
            position
        };
        if moved as i64 + extent as i64 + 2 * (border as i64) <= near as i64 {
            near
        } else {
            moved
        }
    }

    /// Applies the geometry rules to a proposed geometry.
    pub fn constrain(&self, area: &Rect, free: bool, x: i32, y: i32, width: i32, height: i32) -> (result:
        Constrained)
        requires
            self.wf(),
        ensures
            result == self.constrained(*area, free, x, y, width, height),
    {
        let positive_width: i32 = if width < 1 {
            1
        } else {
            width
        };
        let positive_height: i32 = if height < 1 {
            1
        } else {
            height
        };
        let new_x = Self::place(x, positive_width, self.border_width, self.width, area.x, area.width);
        let new_y = Self::place(
            y,
            positive_height,
            self.border_width,
            self.height,
            area.y,
            area.height,
        );
        let wide: i32 = if width < MIN_WINDOW_SIZE {
            MIN_WINDOW_SIZE
        } else {
            width
        };
        let high: i32 = if height < MIN_WINDOW_SIZE {
            MIN_WINDOW_SIZE
        } else {
            height
        };
        let (new_width, new_height) = if free && self.hints_valid {
            self.hints.apply(wide, high)
        } else {
            (wide, high)
        };
        Constrained {
            x: new_x,
            y: new_y,
            width: new_width,
            height: new_height,
            changed: new_x != self.x_position || new_y != self.y_position || new_width
                != self.width || new_height != self.height,
        }
    }

    /// The window with its border covers the point.
    pub open spec fn covers(self, x: i32, y: i32) -> bool {
        x >= self.x_position && x < self.x_position + self.width + 2 * self.border_width && y
            >= self.y_position && y < self.y_position + self.height + 2 * self.border_width
    }

    /// Computes `covers`.
    pub fn is_under(&self, x: i32, y: i32) -> (under: bool)
        ensures
            under == self.covers(x, y),
    {
        let right: i64 = self.x_position as i64 + self.width as i64 + 2 * (self.border_width as i64);
        let bottom: i64 = self.y_position as i64 + self.height as i64 + 2 * (
        self.border_width as i64);
        x >= self.x_position && (x as i64) < right && y >= self.y_position && (y as i64) < bottom
    }

    /// The client with the geometry `to`; the geometry that it had is kept
    /// as its old one.
    pub open spec fn resized(self, to: Constrained) -> Client {
        Client {
            old_x_position: self.x_position,
            old_y_position: self.y_position,
            old_width: self.width,
            old_height: self.height,
            x_position: to.x,
            y_position: to.y,
            width: to.width,
            height: to.height,
            ..self
        }
    }

    /// Takes the geometry `to` and keeps the present one as the old one.
    pub fn resize(&mut self, to: &Constrained)
        ensures
            *final(self) == old(self).resized(*to),
    {
        self.old_x_position = self.x_position;
        self.old_y_position = self.y_position;
        self.old_width = self.width;
        self.old_height = self.height;
        self.x_position = to.x;
        self.y_position = to.y;
        self.width = to.width;
        self.height = to.height;
    }

    /// Only the geometry, present and old, and the border width may differ
    /// from `other`.
    pub open spec fn same_but_geometry(self, other: Client) -> bool {
        self == (Client {
            x_position: self.x_position,
            y_position: self.y_position,
            width: self.width,
            height: self.height,
            border_width: self.border_width,
            old_x_position: self.old_x_position,
            old_y_position: self.old_y_position,
            old_width: self.old_width,
            old_height: self.old_height,
            ..other
        })
    }

    /// The client after it enters fullscreen on `screen`: the floating flag,
    /// the border width and the geometry are saved, the window takes the
    /// whole screen without a border and floats.  A client that is
    /// fullscreen stays as it is.
    pub open spec fn entered_fullscreen(self, screen: Rect) -> Client {
        if self.is_fullscreen {
            self
        } else {
            Client {
                is_fullscreen: true,
                old_state: self.is_floating,
                old_border_width: self.border_width,
                old_x_position: self.x_position,
                old_y_position: self.y_position,
                old_width: self.width,
                old_height: self.height,
                border_width: 0,
                is_floating: true,
                x_position: screen.x,
                y_position: screen.y,
                width: screen.width,
                height: screen.height,
                ..self
            }
        }
    }

    /// The client after it leaves fullscreen: the floating flag, the border
    /// width and the geometry are put back as they were saved.  A client
    /// that is not fullscreen stays as it is.
    pub open spec fn left_fullscreen(self) -> Client {
        if self.is_fullscreen {
            Client {
                is_fullscreen: false,
                is_floating: self.old_state,
                border_width: self.old_border_width,
                x_position: self.old_x_position,
                y_position: self.old_y_position,
                width: self.old_width,
                height: self.old_height,
                ..self
            }
        } else {
            self
        }
    }

    pub fn enter_fullscreen(&mut self, screen: &Rect)
        ensures
            *final(self) == old(self).entered_fullscreen(*screen),
    {
        if !self.is_fullscreen {
            self.is_fullscreen = true;
            self.old_state = self.is_floating;
            self.old_border_width = self.border_width;
            self.old_x_position = self.x_position;
            self.old_y_position = self.y_position;
            self.old_width = self.width;
            self.old_height = self.height;
            self.border_width = 0;
            self.is_floating = true;
            self.x_position = screen.x;
            self.y_position = screen.y;
            self.width = screen.width;
            self.height = screen.height;
        }
    }

    pub fn exit_fullscreen(&mut self)
        ensures
            *final(self) == old(self).left_fullscreen(),
    {
        if self.is_fullscreen {
            self.is_fullscreen = false;
            self.is_floating = self.old_state;
            self.border_width = self.old_border_width;
            self.x_position = self.old_x_position;
            self.y_position = self.old_y_position;
            self.width = self.old_width;
            self.height = self.old_height;
        }
    }

    /// Fullscreen round trip: a client that enters fullscreen and leaves it
    /// again has the geometry, the border width and the floating flag that
    /// it had before, and is no longer fullscreen.
    pub proof fn lemma_fullscreen_round_trip(self, screen: Rect)
        requires
            !self.is_fullscreen,
        ensures
            ({
                let back = self.entered_fullscreen(screen).left_fullscreen();
                &&& back.x_position == self.x_position
                &&& back.y_position == self.y_position
                &&& back.width == self.width
                &&& back.height == self.height
                &&& back.border_width == self.border_width
                &&& back.is_floating == self.is_floating
                &&& !back.is_fullscreen
                &&& back.tags == self.tags
                &&& back.monitor_index == self.monitor_index
                &&& back.hints == self.hints
            }),
    {
    }
}

} // verus!
