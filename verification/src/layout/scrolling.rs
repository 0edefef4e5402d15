//! Scrolling: columns of one fixed width side by side; columns beyond the
//! visible count lie off the area, to its right.

use vstd::prelude::*;
use crate::tags::Window;
use crate::layout::GapConfig;
use crate::layout::Layout;
use crate::layout::WindowGeometry;
use crate::layout::coordinate;
use crate::layout::minus;
use crate::layout::smart_outer;
use crate::layout::span_of;
use crate::layout::times;
use crate::layout::to_coordinate;

verus! {

/// Outer gaps and the gap between columns, as one arrangement applies them.
#[derive(Clone, Copy, Debug, PartialEq, Eq, Structural)]
pub struct ColumnGaps {
    pub outer_horizontal: u32,
    pub outer_vertical: u32,
    pub inner_vertical: u32,
}

#[derive(Clone, Copy, Debug)]
pub struct ScrollingLayout;

impl ScrollingLayout {
    /// The gaps in force: smart gaps drop the outer ones around a lone window.
    pub fn getgaps(gaps: &GapConfig, window_count: usize, smartgaps_enabled: bool) -> (values:
        ColumnGaps)
        ensures
            values.outer_horizontal == smart_outer(
                gaps.outer_horizontal,
                window_count as nat,
                smartgaps_enabled,
            ),
            values.outer_vertical == smart_outer(
                gaps.outer_vertical,
                window_count as nat,
                smartgaps_enabled,
            ),
            values.inner_vertical == gaps.inner_vertical,
    {
        let outer_enabled = !(smartgaps_enabled && window_count == 1);
        ColumnGaps {
            outer_horizontal: if outer_enabled {
                gaps.outer_horizontal
            } else {
                0
            },
            outer_vertical: if outer_enabled {
                gaps.outer_vertical
            } else {
                0
            },
            inner_vertical: gaps.inner_vertical,
        }
    }

    /// Number of columns that the area shows at once: `num_master`, or 2
    /// where that is not positive.
    pub open spec fn visible_count(num_master: i32) -> int {
        if num_master > 0 {
            num_master as int
        } else {
            2
        }
    }

    /// Width of every column: the share that one of the visible columns
    /// has of the area, however many windows there are.
    pub open spec fn column_width(
        screen_width: u32,
        outer: u32,
        inner: u32,
        num_master: i32,
    ) -> int {
        let shown = Self::visible_count(num_master);
        minus(minus(screen_width as int, 2 * outer), inner * (shown - 1)) / shown
    }

    /// The rectangle of column `index`.
    pub open spec fn geometry(
        index: int,
        window_count: nat,
        screen_width: u32,
        screen_height: u32,
        gaps: GapConfig,
        num_master: i32,
        smartgaps_enabled: bool,
    ) -> WindowGeometry {
        let outer_h = smart_outer(gaps.outer_horizontal, window_count, smartgaps_enabled);
        let outer_v = smart_outer(gaps.outer_vertical, window_count, smartgaps_enabled);
        let width = Self::column_width(
            screen_width,
            outer_v,
            gaps.inner_vertical,
            num_master,
        );
        WindowGeometry {
            x_coordinate: coordinate(outer_v + index * (width + gaps.inner_vertical)) as i32,
            y_coordinate: coordinate(outer_h as int) as i32,
            width: width as u32,
            height: minus(screen_height as int, 2 * outer_h) as u32,
        }
    }
}

impl Layout for ScrollingLayout {
    open spec fn geometries(
        &self,
        window_count: nat,
        screen_width: u32,
        screen_height: u32,
        gaps: GapConfig,
        master_factor: u32,
        num_master: i32,
        smartgaps_enabled: bool,
    ) -> Seq<WindowGeometry> {
        Seq::new(
            window_count,
            |index: int|
                Self::geometry(
                    index,
                    window_count,
                    screen_width,
                    screen_height,
                    gaps,
                    num_master,
                    smartgaps_enabled,
                ),
        )
    }

    open spec fn name_text(&self) -> Seq<char> {
        "scrolling"@
    }

    open spec fn symbol_text(&self) -> Seq<char> {
        "[>>]"@
    }

    fn name(&self) -> (name: &'static str) {
        "scrolling"
    }

    fn symbol(&self) -> (symbol: &'static str) {
        "[>>]"
    }

    fn arrange(
        &self,
        windows: &[Window],
        screen_width: u32,
        screen_height: u32,
        gaps: &GapConfig,
        master_factor: u32,
        num_master: i32,
        smartgaps_enabled: bool,
    ) -> (geometries: Vec<WindowGeometry>) {
        let window_count: usize = windows.len();
        let mut geometries: Vec<WindowGeometry> = Vec::new();
        if window_count == 0 {
            assert(geometries@ =~= self.geometries(
                windows@.len(),
                screen_width,
                screen_height,
                *gaps,
                master_factor,
                num_master,
                smartgaps_enabled,
            ));
            return geometries;
        }
        let values = Self::getgaps(gaps, window_count, smartgaps_enabled);
        let outer_h: u32 = values.outer_horizontal;
        let outer_v: u32 = values.outer_vertical;
        let inner_v: u32 = values.inner_vertical;

        let visible: usize = if num_master > 0 {
            num_master as usize
        } else {
            2
        };
        let shown: usize = visible;
        let available_width: u32 = span_of(screen_width, outer_v);
        let available_height: u32 = span_of(screen_height, outer_h);
        let between: u128 = times(inner_v, (shown - 1) as usize);
        let shared: u128 = if (available_width as u128) > between {
            (available_width as u128) - between
        } else {
            0
        };
        let width: u32 = (shared / (shown as u128)) as u32;
        proof {
            assert(inner_v * (shown - 1) == between) by (nonlinear_arith)
                requires
                    between == inner_v * ((shown - 1) as usize),
                    shown >= 1,
            ;
            vstd::arithmetic::div_mod::lemma_div_pos_is_pos(shared as int, shown as int);
            vstd::arithmetic::div_mod::lemma_fundamental_div_mod(shared as int, shown as int);
            vstd::arithmetic::div_mod::lemma_mod_bound(shared as int, shown as int);
            let quotient = shared as int / shown as int;
            assert(quotient <= shared) by (nonlinear_arith)
                requires
                    shared == shown * quotient + (shared as int % shown as int),
                    shown > 0,
                    quotient >= 0,
                    0 <= (shared as int % shown as int),
            ;
        }
        let step: u64 = width as u64 + inner_v as u64;
        let mut index: usize = 0;
        while index < window_count
            invariant
                index <= window_count,
                window_count == windows@.len(),
                geometries@.len() == index,
                outer_h == smart_outer(gaps.outer_horizontal, window_count as nat, smartgaps_enabled),
                outer_v == smart_outer(gaps.outer_vertical, window_count as nat, smartgaps_enabled),
                inner_v == gaps.inner_vertical,
                available_height == minus(screen_height as int, 2 * outer_h),
                width == Self::column_width(
                    screen_width,
                    outer_v,
                    inner_v,
                    num_master,
                ),
                step == width + inner_v,
                forall|k: int|
                    0 <= k < index ==> geometries@[k] == Self::geometry(
                        k,
                        window_count as nat,
                        screen_width,
                        screen_height,
                        *gaps,
                        num_master,
                        smartgaps_enabled,
                    ),
            decreases window_count - index,
        {
            assert(0 <= index * step < 0x2_0000_0000_0000_0000_0000_0000) by (nonlinear_arith)
                requires
                    0 <= index <= 0xffff_ffff_ffff_ffff,
                    0 <= step <= 0x1_ffff_fffe,
            ;
            let across: u128 = outer_v as u128 + (index as u128) * (step as u128);
            geometries.push(
                WindowGeometry {
                    x_coordinate: to_coordinate(across),
                    y_coordinate: to_coordinate(outer_h as u128),
                    width,
                    height: available_height,
                },
            );
            index += 1;
        }
        assert(geometries@ =~= self.geometries(
            windows@.len(),
            screen_width,
            screen_height,
            *gaps,
            master_factor,
            num_master,
            smartgaps_enabled,
        ));
        geometries
    }
}

} // verus!
