//! Grid: the windows fill the cells of a near-square grid row by row.

use vstd::prelude::*;
use crate::tags::Window;
use crate::layout::GapConfig;
use crate::layout::Layout;
use crate::layout::WindowGeometry;
use crate::layout::coordinate;
use crate::layout::minus;
use crate::layout::smart_outer;
use crate::layout::span_of;
use crate::layout::times;
use crate::layout::to_coordinate;

verus! {

#[derive(Clone, Copy, Debug)]
pub struct GridLayout;

impl GridLayout {
    /// `columns` is the least number whose square reaches `window_count`.
    pub open spec fn is_columns(window_count: nat, columns: nat) -> bool {
        columns * columns >= window_count && (columns == 0 || (columns - 1) * (columns - 1)
            < window_count)
    }

    /// Number of columns of the grid.
    pub open spec fn columns(window_count: nat) -> nat {
        choose|columns: nat| Self::is_columns(window_count, columns)
    }

    /// Number of rows of the grid: as many as the columns need to hold all
    /// windows.
    pub open spec fn rows(window_count: nat) -> nat {
        let columns = Self::columns(window_count);
        if columns == 0 {
            0
        } else {
            ((window_count + columns - 1) / (columns as int)) as nat
        }
    }

    /// Side of a cell where `count` cells with gaps of `inner` between them
    /// share `length` pixels less the outer gaps.
    pub open spec fn cell(length: u32, outer: u32, inner: u32, count: int) -> int {
        minus(minus(length as int, 2 * outer), inner * (count - 1)) / count
    }

    /// The rectangle of window `index`: cell `index % columns` of row
    /// `index / columns`.
    pub open spec fn geometry(
        index: int,
        window_count: nat,
        screen_width: u32,
        screen_height: u32,
        gaps: GapConfig,
        smartgaps_enabled: bool,
    ) -> WindowGeometry {
        let outer_h = smart_outer(gaps.outer_horizontal, window_count, smartgaps_enabled);
        let outer_v = smart_outer(gaps.outer_vertical, window_count, smartgaps_enabled);
        let columns = Self::columns(window_count) as int;
        let rows = Self::rows(window_count) as int;
        let width = Self::cell(screen_width, outer_v, gaps.inner_vertical, columns);
        let height = Self::cell(screen_height, outer_h, gaps.inner_horizontal, rows);
        WindowGeometry {
            x_coordinate: coordinate(outer_v + (index % columns) * (width + gaps.inner_vertical))
                as i32,
            y_coordinate: coordinate(outer_h + (index / columns) * (height + gaps.inner_horizontal))
                as i32,
            width: width as u32,
            height: height as u32,
        }
    }

    /// Only one number is the least whose square reaches `window_count`.
    pub proof fn lemma_columns_unique(window_count: nat, first: nat, second: nat)
        requires
            Self::is_columns(window_count, first),
            Self::is_columns(window_count, second),
        ensures
            first == second,
    {
        if first < second {
            assert(first * first <= (second - 1) * (second - 1)) by (nonlinear_arith)
                requires
                    0 <= first <= second - 1,
            ;
        }
        if second < first {
            assert(second * second <= (first - 1) * (first - 1)) by (nonlinear_arith)
                requires
                    0 <= second <= first - 1,
            ;
        }
    }

    /// Computes `columns`.
    pub fn columns_of(window_count: usize) -> (columns: usize)
        ensures
            columns == Self::columns(window_count as nat),
            Self::is_columns(window_count as nat, columns as nat),
            columns <= 0x1_0000_0000,
            window_count > 0 ==> columns > 0,
    {
        let mut columns: usize = 0;
        let mut square: u128 = 0;
        while square < (window_count as u128)
            invariant
                columns <= 0x1_0000_0000,
                columns <= window_count,
                square == columns * columns,
                columns == 0 || (columns - 1) * (columns - 1) < window_count,
            decreases window_count - columns,
        {
            assert(columns < 0x1_0000_0000 && columns < window_count) by (nonlinear_arith)
                requires
                    columns * columns < window_count,
                    window_count <= 0xffff_ffff_ffff_ffff,
                    0 <= columns,
            ;
            assert((columns + 1) * (columns + 1) == columns * columns + 2 * columns + 1)
                by (nonlinear_arith);
            square = square + 2 * (columns as u128) + 1;
            columns += 1;
        }
        proof {
            assert(Self::is_columns(window_count as nat, columns as nat));
            Self::lemma_columns_unique(
                window_count as nat,
                columns as nat,
                Self::columns(window_count as nat),
            );
            if window_count > 0 && columns == 0 {
                assert(columns * columns == 0) by (nonlinear_arith)
                    requires
                        columns == 0,
                ;
            }
        }
        columns
    }

    /// Computes `cell`.
    fn cell_of(length: u32, outer: u32, inner: u32, count: usize) -> (side: u32)
        requires
            count > 0,
        ensures
            side == Self::cell(length, outer, inner, count as int),
    {
        let available: u32 = span_of(length, outer);
        let between: u128 = times(inner, (count - 1) as usize);
        let shared: u128 = if (available as u128) > between {
            (available as u128) - between
        } else {
            0
        };
        proof {
            assert(inner * (count - 1) == between) by (nonlinear_arith)
                requires
                    between == inner * ((count - 1) as usize),
                    count >= 1,
            ;
            vstd::arithmetic::div_mod::lemma_div_pos_is_pos(shared as int, count as int);
            vstd::arithmetic::div_mod::lemma_fundamental_div_mod(shared as int, count as int);
            vstd::arithmetic::div_mod::lemma_mod_bound(shared as int, count as int);
            let quotient = shared as int / count as int;
            assert(quotient <= shared) by (nonlinear_arith)
                requires
                    shared == count * quotient + (shared as int % count as int),
                    count > 0,
                    quotient >= 0,
                    0 <= (shared as int % count as int),
            ;
        }
        (shared / (count as u128)) as u32
    }
}

impl Layout for GridLayout {
    open spec fn geometries(
        &self,
        window_count: nat,
        screen_width: u32,
        screen_height: u32,
        gaps: GapConfig,
        master_factor: u32,
        num_master: i32,
        smartgaps_enabled: bool,
    ) -> Seq<WindowGeometry> {
        Seq::new(
            window_count,
            |index: int|
                Self::geometry(
                    index,
                    window_count,
                    screen_width,
                    screen_height,
                    gaps,
                    smartgaps_enabled,
                ),
        )
    }

    open spec fn name_text(&self) -> Seq<char> {
        "grid"@
    }

    open spec fn symbol_text(&self) -> Seq<char> {
        "[#]"@
    }

    fn name(&self) -> (name: &'static str) {
        "grid"
    }

    fn symbol(&self) -> (symbol: &'static str) {
        "[#]"
    }

    fn arrange(
        &self,
        windows: &[Window],
        screen_width: u32,
        screen_height: u32,
        gaps: &GapConfig,
        master_factor: u32,
        num_master: i32,
        smartgaps_enabled: bool,
    ) -> (geometries: Vec<WindowGeometry>) {
        let window_count: usize = windows.len();
        let mut geometries: Vec<WindowGeometry> = Vec::new();
        if window_count == 0 {
            assert(geometries@ =~= self.geometries(
                windows@.len(),
                screen_width,
                screen_height,
                *gaps,
                master_factor,
                num_master,
                smartgaps_enabled,
            ));
            return geometries;
        }
        let lone = smartgaps_enabled && window_count == 1;
        let outer_h: u32 = if lone {
            0
        } else {
            gaps.outer_horizontal
        };
        let outer_v: u32 = if lone {
            0
        } else {
            gaps.outer_vertical
        };
        let inner_h: u32 = gaps.inner_horizontal;
        let inner_v: u32 = gaps.inner_vertical;
        let columns: usize = Self::columns_of(window_count);
        let rows_wide: u128 = ((window_count as u128) + (columns as u128) - 1) / (columns as u128);
        proof {
            let sum = window_count + columns - 1;
            vstd::arithmetic::div_mod::lemma_div_pos_is_pos(sum as int, columns as int);
            vstd::arithmetic::div_mod::lemma_fundamental_div_mod(sum as int, columns as int);
            vstd::arithmetic::div_mod::lemma_mod_bound(sum as int, columns as int);
            let quotient = sum as int / columns as int;
            let remainder = sum as int % columns as int;
            assert(1 <= quotient <= window_count) by (nonlinear_arith)
                requires
                    sum == columns * quotient + remainder,
                    sum == window_count + columns - 1,
                    window_count >= 1,
                    columns >= 1,
                    quotient >= 0,
                    0 <= remainder < columns,
            ;
        }
        let rows: usize = rows_wide as usize;
        let width: u32 = Self::cell_of(screen_width, outer_v, inner_v, columns);
        let height: u32 = Self::cell_of(screen_height, outer_h, inner_h, rows);
        let step_across: u64 = width as u64 + inner_v as u64;
        let step_down: u64 = height as u64 + inner_h as u64;
        let mut index: usize = 0;
        while index < window_count
            invariant
                index <= window_count,
                window_count == windows@.len(),
                window_count > 0,
                geometries@.len() == index,
                outer_h == smart_outer(gaps.outer_horizontal, window_count as nat, smartgaps_enabled),
                outer_v == smart_outer(gaps.outer_vertical, window_count as nat, smartgaps_enabled),
                inner_h == gaps.inner_horizontal,
                inner_v == gaps.inner_vertical,
                columns == Self::columns(window_count as nat),
                columns > 0,
                rows == Self::rows(window_count as nat),
                width == Self::cell(screen_width, outer_v, inner_v, columns as int),
                height == Self::cell(screen_height, outer_h, inner_h, rows as int),
                step_across == width + inner_v,
                step_down == height + inner_h,
                forall|k: int|
                    0 <= k < index ==> geometries@[k] == Self::geometry(
                        k,
                        window_count as nat,
                        screen_width,
                        screen_height,
                        *gaps,
                        smartgaps_enabled,
                    ),
            decreases window_count - index,
        {
            let column: usize = index % columns;
            let row: usize = index / columns;
            assert(0 <= column * step_across < 0x2_0000_0000_0000_0000_0000_0000
                && 0 <= row * step_down < 0x2_0000_0000_0000_0000_0000_0000) by (nonlinear_arith)
                requires
                    0 <= column <= 0xffff_ffff_ffff_ffff,
                    0 <= row <= 0xffff_ffff_ffff_ffff,
                    0 <= step_across <= 0x1_ffff_fffe,
                    0 <= step_down <= 0x1_ffff_fffe,
            ;
            let across: u128 = outer_v as u128 + (column as u128) * (step_across as u128);
            let down: u128 = outer_h as u128 + (row as u128) * (step_down as u128);
            geometries.push(
                WindowGeometry {
                    x_coordinate: to_coordinate(across),
                    y_coordinate: to_coordinate(down),
                    width,
                    height,
                },
            );
            index += 1;
        }
        assert(geometries@ =~= self.geometries(
            windows@.len(),
            screen_width,
            screen_height,
            *gaps,
            master_factor,
            num_master,
            smartgaps_enabled,
        ));
        geometries
    }
}

} // verus!
