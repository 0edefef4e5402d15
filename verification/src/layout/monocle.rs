//! Monocle: every window takes the whole usable area.

use vstd::prelude::*;
use crate::tags::Window;
use crate::layout::GapConfig;
use crate::layout::Layout;
use crate::layout::WindowGeometry;
use crate::layout::coordinate;
use crate::layout::minus;
use crate::layout::smart_outer;
use crate::layout::to_coordinate;
use crate::layout::span_of;

verus! {

#[derive(Clone, Copy, Debug)]
pub struct MonocleLayout;

impl MonocleLayout {
    /// The one rectangle that all windows get: the area inside the outer gaps.
    pub open spec fn geometry(
        window_count: nat,
        screen_width: u32,
        screen_height: u32,
        gaps: GapConfig,
        smartgaps_enabled: bool,
    ) -> WindowGeometry {
        let outer_h = smart_outer(gaps.outer_horizontal, window_count, smartgaps_enabled);
        let outer_v = smart_outer(gaps.outer_vertical, window_count, smartgaps_enabled);
        WindowGeometry {
            x_coordinate: coordinate(outer_v as int) as i32,
            y_coordinate: coordinate(outer_h as int) as i32,
            width: minus(screen_width as int, 2 * outer_v) as u32,
            height: minus(screen_height as int, 2 * outer_h) as u32,
        }
    }
}

impl Layout for MonocleLayout {
    open spec fn geometries(
        &self,
        window_count: nat,
        screen_width: u32,
        screen_height: u32,
        gaps: GapConfig,
        master_factor: u32,
        num_master: i32,
        smartgaps_enabled: bool,
    ) -> Seq<WindowGeometry> {
        Seq::new(
            window_count,
            |index: int|
                Self::geometry(window_count, screen_width, screen_height, gaps, smartgaps_enabled),
        )
    }

    open spec fn name_text(&self) -> Seq<char> {
        "monocle"@
    }

    open spec fn symbol_text(&self) -> Seq<char> {
        "[M]"@
    }

    fn name(&self) -> (name: &'static str) {
        "monocle"
    }

    fn symbol(&self) -> (symbol: &'static str) {
        "[M]"
    }

    fn arrange(
        &self,
        windows: &[Window],
        screen_width: u32,
        screen_height: u32,
        gaps: &GapConfig,
        master_factor: u32,
        num_master: i32,
        smartgaps_enabled: bool,
    ) -> (geometries: Vec<WindowGeometry>) {
        let window_count: usize = windows.len();
        let lone = smartgaps_enabled && window_count == 1;
        let outer_h: u32 = if lone {
            0
        } else {
            gaps.outer_horizontal
        };
        let outer_v: u32 = if lone {
            0
        } else {
            gaps.outer_vertical
        };
        let geometry = WindowGeometry {
            x_coordinate: to_coordinate(outer_v as u128),
            y_coordinate: to_coordinate(outer_h as u128),
            width: span_of(screen_width, outer_v),
            height: span_of(screen_height, outer_h),
        };
        let mut geometries: Vec<WindowGeometry> = Vec::new();
        let mut index: usize = 0;
        while index < window_count
            invariant
                index <= window_count,
                geometries@.len() == index,
                forall|k: int| 0 <= k < index ==> geometries@[k] == geometry,
            decreases window_count - index,
        {
            geometries.push(geometry);
            index += 1;
        }
        assert(geometries@ =~= self.geometries(
            windows@.len(),
            screen_width,
            screen_height,
            *gaps,
            master_factor,
            num_master,
            smartgaps_enabled,
        ));
        geometries
    }
}

} // verus!
