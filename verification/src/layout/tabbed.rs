//! Tabbed: all windows share one rectangle, the whole area, and the one
//! stacked on top is the one seen.  The strip of tabs is laid over the top
//! edge of that rectangle by whoever draws it.

use vstd::prelude::*;
use crate::tags::Window;
use crate::layout::GapConfig;
use crate::layout::Layout;
use crate::layout::WindowGeometry;
use crate::layout::coordinate;
use crate::layout::minus;
use crate::layout::smart_outer;
use crate::layout::to_coordinate;

verus! {

/// Height of the strip of tabs.
pub const TAB_BAR_HEIGHT: u32 = 28;

#[derive(Clone, Copy, Debug)]
pub struct TabbedLayout;

impl TabbedLayout {
    /// The one rectangle that all windows get: the whole area inside the
    /// outer gaps.
    pub open spec fn geometry(
        window_count: nat,
        screen_width: u32,
        screen_height: u32,
        gaps: GapConfig,
        smartgaps_enabled: bool,
    ) -> WindowGeometry {
        let outer_h = smart_outer(gaps.outer_horizontal, window_count, smartgaps_enabled);
        let outer_v = smart_outer(gaps.outer_vertical, window_count, smartgaps_enabled);
        WindowGeometry {
            x_coordinate: coordinate(outer_v as int) as i32,
            y_coordinate: coordinate(outer_h as int) as i32,
            width: minus(screen_width as int, 2 * outer_v) as u32,
            height: minus(screen_height as int, 2 * outer_h) as u32,
        }
    }
}

impl Layout for TabbedLayout {
    open spec fn geometries(
        &self,
        window_count: nat,
        screen_width: u32,
        screen_height: u32,
        gaps: GapConfig,
        master_factor: u32,
        num_master: i32,
        smartgaps_enabled: bool,
    ) -> Seq<WindowGeometry> {
        Seq::new(
            window_count,
            |index: int|
                Self::geometry(window_count, screen_width, screen_height, gaps, smartgaps_enabled),
        )
    }

    open spec fn name_text(&self) -> Seq<char> {
        "tabbed"@
    }

    open spec fn symbol_text(&self) -> Seq<char> {
        "[=]"@
    }

    fn name(&self) -> (name: &'static str) {
        "tabbed"
    }

    fn symbol(&self) -> (symbol: &'static str) {
        "[=]"
    }

    fn arrange(
        &self,
        windows: &[Window],
        screen_width: u32,
        screen_height: u32,
        gaps: &GapConfig,
        master_factor: u32,
        num_master: i32,
        smartgaps_enabled: bool,
    ) -> (geometries: Vec<WindowGeometry>) {
        let window_count: usize = windows.len();
        let lone = smartgaps_enabled && window_count == 1;
        let outer_h: u32 = if lone {
            0
        } else {
            gaps.outer_horizontal
        };
        let outer_v: u32 = if lone {
            0
        } else {
            gaps.outer_vertical
        };
        let across: u64 = 2 * (outer_v as u64);
        let down: u64 = 2 * (outer_h as u64);
        let geometry = WindowGeometry {
            x_coordinate: to_coordinate(outer_v as u128),
            y_coordinate: to_coordinate(outer_h as u128),
            width: if (screen_width as u64) > across {
                ((screen_width as u64) - across) as u32
            } else {
                0
            },
            height: if (screen_height as u64) > down {
                ((screen_height as u64) - down) as u32
            } else {
                0
            },
        };
        let mut geometries: Vec<WindowGeometry> = Vec::new();
        let mut index: usize = 0;
        while index < window_count
            invariant
                index <= window_count,
                geometries@.len() == index,
                forall|k: int| 0 <= k < index ==> geometries@[k] == geometry,
            decreases window_count - index,
        {
            geometries.push(geometry);
            index += 1;
        }
        assert(geometries@ =~= self.geometries(
            windows@.len(),
            screen_width,
            screen_height,
            *gaps,
            master_factor,
            num_master,
            smartgaps_enabled,
        ));
        geometries
    }
}

} // verus!
