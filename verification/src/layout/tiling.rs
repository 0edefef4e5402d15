//! Master and stack tiling: the first `num_master` windows share a master
//! column, the others a stack column beside it.

use vstd::prelude::*;
use crate::tags::Window;
use crate::layout::GapConfig;
use crate::layout::GapValues;
use crate::layout::Layout;
use crate::layout::WindowGeometry;
use crate::layout::coordinate;
use crate::layout::minus;
use crate::layout::share;
use crate::layout::share_of;
use crate::layout::shares_before;
use crate::layout::shares_before_of;
use crate::layout::shares_sum;
use crate::layout::lemma_shares_fill;
use crate::layout::smart_outer;
use crate::layout::times;
use crate::layout::to_coordinate;

verus! {

#[derive(Clone, Copy, Debug)]
pub struct TilingLayout;

impl TilingLayout {
    /// The gaps in force: smart gaps drop the outer ones around a lone window.
    pub fn getgaps(gaps: &GapConfig, window_count: usize, smartgaps_enabled: bool) -> (values:
        GapValues)
        ensures
            values.outer_horizontal == smart_outer(
                gaps.outer_horizontal,
                window_count as nat,
                smartgaps_enabled,
            ),
            values.outer_vertical == smart_outer(
                gaps.outer_vertical,
                window_count as nat,
                smartgaps_enabled,
            ),
            values.inner_horizontal == gaps.inner_horizontal,
            values.inner_vertical == gaps.inner_vertical,
    {
        let outer_enabled = !(smartgaps_enabled && window_count == 1);
        GapValues {
            outer_horizontal: if outer_enabled {
                gaps.outer_horizontal
            } else {
                0
            },
            outer_vertical: if outer_enabled {
                gaps.outer_vertical
            } else {
                0
            },
            inner_horizontal: gaps.inner_horizontal,
            inner_vertical: gaps.inner_vertical,
        }
    }

    /// Number of windows in the master column.
    pub open spec fn master_count(window_count: nat, num_master: i32) -> int {
        if num_master <= 0 {
            0
        } else if window_count < num_master {
            window_count as int
        } else {
            num_master as int
        }
    }

    /// Height that the `count` windows of one column share: the screen height
    /// less the outer gaps and the inner gaps between them.
    pub open spec fn column_height(screen_height: u32, outer: u32, inner: u32, count: int) -> int {
        minus(screen_height as int, 2 * outer + inner * minus(count, 1))
    }

    /// Width between the outer gaps.
    pub open spec fn inner_width(screen_width: u32, outer: u32) -> int {
        minus(screen_width as int, 2 * outer)
    }

    /// Both columns are shown: there is a master column and windows beyond it.
    pub open spec fn is_split(window_count: nat, num_master: i32) -> bool {
        num_master > 0 && window_count > num_master
    }

    /// Width of the stack column.
    pub open spec fn stack_width(
        window_count: nat,
        screen_width: u32,
        outer: u32,
        inner: u32,
        master_factor: u32,
        num_master: i32,
    ) -> int {
        if Self::is_split(window_count, num_master) {
            minus(Self::inner_width(screen_width, outer), inner as int) * minus(
                100,
                master_factor as int,
            ) / 100
        } else {
            Self::inner_width(screen_width, outer)
        }
    }

    /// Width of the master column.
    pub open spec fn master_width(
        window_count: nat,
        screen_width: u32,
        outer: u32,
        inner: u32,
        master_factor: u32,
        num_master: i32,
    ) -> int {
        if Self::is_split(window_count, num_master) {
            minus(
                Self::inner_width(screen_width, outer),
                inner + Self::stack_width(
                    window_count,
                    screen_width,
                    outer,
                    inner,
                    master_factor,
                    num_master,
                ),
            )
        } else {
            Self::inner_width(screen_width, outer)
        }
    }

    /// The rectangle of window `index` among `window_count`.
    pub open spec fn geometry(
        index: int,
        window_count: nat,
        screen_width: u32,
        screen_height: u32,
        gaps: GapConfig,
        master_factor: u32,
        num_master: i32,
        smartgaps_enabled: bool,
    ) -> WindowGeometry {
        let outer_h = smart_outer(gaps.outer_horizontal, window_count, smartgaps_enabled);
        let outer_v = smart_outer(gaps.outer_vertical, window_count, smartgaps_enabled);
        let inner_h = gaps.inner_horizontal;
        let inner_v = gaps.inner_vertical;
        let masters = Self::master_count(window_count, num_master);
        let stacked = window_count - masters;
        let master_w = Self::master_width(
            window_count,
            screen_width,
            outer_v,
            inner_v,
            master_factor,
            num_master,
        );
        let stack_w = Self::stack_width(
            window_count,
            screen_width,
            outer_v,
            inner_v,
            master_factor,
            num_master,
        );
        if index < masters {
            let height = Self::column_height(screen_height, outer_h, inner_h, masters);
            WindowGeometry {
                x_coordinate: coordinate(outer_v as int) as i32,
                y_coordinate: coordinate(
                    outer_h + shares_before(height, masters, index) + index * inner_h,
                ) as i32,
                width: master_w as u32,
                height: share(height, masters, index) as u32,
            }
        } else {
            let place = index - masters;
            let height = Self::column_height(screen_height, outer_h, inner_h, stacked);
            WindowGeometry {
                x_coordinate: coordinate(
                    if Self::is_split(window_count, num_master) {
                        outer_v + master_w + inner_v
                    } else {
                        outer_v as int
                    },
                ) as i32,
                y_coordinate: coordinate(
                    outer_h + shares_before(height, stacked, place) + place * inner_h,
                ) as i32,
                width: stack_w as u32,
                height: share(height, stacked, place) as u32,
            }
        }
    }

    /// Sum of the heights of the first `count` rectangles.
    pub open spec fn heights_sum(geometries: Seq<WindowGeometry>, count: int) -> int
        decreases count,
    {
        if count <= 0 {
            0
        } else {
            Self::heights_sum(geometries, count - 1) + geometries[count - 1].height
        }
    }

    /// The heights of the first `count` master windows are the first `count`
    /// shares of the master column's height.
    proof fn lemma_master_heights(
        count: int,
        window_count: nat,
        screen_width: u32,
        screen_height: u32,
        gaps: GapConfig,
        master_factor: u32,
        num_master: i32,
        smartgaps_enabled: bool,
    )
        requires
            0 <= count <= Self::master_count(window_count, num_master),
        ensures
            Self::heights_sum(
                TilingLayout.geometries(
                    window_count,
                    screen_width,
                    screen_height,
                    gaps,
                    master_factor,
                    num_master,
                    smartgaps_enabled,
                ),
                count,
            ) == shares_sum(
                Self::column_height(
                    screen_height,
                    smart_outer(gaps.outer_horizontal, window_count, smartgaps_enabled),
                    gaps.inner_horizontal,
                    Self::master_count(window_count, num_master),
                ),
                Self::master_count(window_count, num_master),
                count,
            ),
        decreases count,
    {
        if count > 0 {
            Self::lemma_master_heights(
                count - 1,
                window_count,
                screen_width,
                screen_height,
                gaps,
                master_factor,
                num_master,
                smartgaps_enabled,
            );
            let masters = Self::master_count(window_count, num_master);
            let height = Self::column_height(
                screen_height,
                smart_outer(gaps.outer_horizontal, window_count, smartgaps_enabled),
                gaps.inner_horizontal,
                masters,
            );
            Self::lemma_share_bounds(height, masters, count - 1);
        }
    }

    /// A share lies between 0 and the total.
    pub proof fn lemma_share_bounds(total: int, count: int, index: int)
        requires
            0 <= total,
            0 < count,
            0 <= index,
        ensures
            0 <= share(total, count, index) <= total,
    {
        vstd::arithmetic::div_mod::lemma_fundamental_div_mod(total, count);
        vstd::arithmetic::div_mod::lemma_mod_bound(total, count);
        vstd::arithmetic::div_mod::lemma_div_pos_is_pos(total, count);
        let quotient = total / count;
        let remainder = total % count;
        assert(quotient <= total && (remainder > 0 ==> quotient + 1 <= total))
            by (nonlinear_arith)
            requires
                total == count * quotient + remainder,
                count > 0,
                quotient >= 0,
                0 <= remainder < count,
        ;
    }

    /// Area conservation: whenever the master column holds a window, the
    /// heights of its windows add up to the column's height exactly.
    pub proof fn lemma_master_heights_fill(
        window_count: nat,
        screen_width: u32,
        screen_height: u32,
        gaps: GapConfig,
        master_factor: u32,
        num_master: i32,
        smartgaps_enabled: bool,
    )
        requires
            window_count > 0,
            num_master > 0,
        ensures
            Self::heights_sum(
                TilingLayout.geometries(
                    window_count,
                    screen_width,
                    screen_height,
                    gaps,
                    master_factor,
                    num_master,
                    smartgaps_enabled,
                ),
                Self::master_count(window_count, num_master),
            ) == Self::column_height(
                screen_height,
                smart_outer(gaps.outer_horizontal, window_count, smartgaps_enabled),
                gaps.inner_horizontal,
                Self::master_count(window_count, num_master),
            ),
    {
        let masters = Self::master_count(window_count, num_master);
        Self::lemma_master_heights(
            masters,
            window_count,
            screen_width,
            screen_height,
            gaps,
            master_factor,
            num_master,
            smartgaps_enabled,
        );
        lemma_shares_fill(
            Self::column_height(
                screen_height,
                smart_outer(gaps.outer_horizontal, window_count, smartgaps_enabled),
                gaps.inner_horizontal,
                masters,
            ),
            masters,
        );
    }

    /// Computes `column_height`.
    fn column_height_of(screen_height: u32, outer: u32, inner: u32, count: usize) -> (height: u32)
        ensures
            height == Self::column_height(screen_height, outer, inner, count as int),
    {
        let between: usize = if count > 0 {
            count - 1
        } else {
            0
        };
        let taken: u128 = 2 * (outer as u128) + times(inner, between);
        if (screen_height as u128) > taken {
            ((screen_height as u128) - taken) as u32
        } else {
            0
        }
    }
}

impl Layout for TilingLayout {
    open spec fn geometries(
        &self,
        window_count: nat,
        screen_width: u32,
        screen_height: u32,
        gaps: GapConfig,
        master_factor: u32,
        num_master: i32,
        smartgaps_enabled: bool,
    ) -> Seq<WindowGeometry> {
        Seq::new(
            window_count,
            |index: int|
                Self::geometry(
                    index,
                    window_count,
                    screen_width,
                    screen_height,
                    gaps,
                    master_factor,
                    num_master,
                    smartgaps_enabled,
                ),
        )
    }

    open spec fn name_text(&self) -> Seq<char> {
        "tiling"@
    }

    open spec fn symbol_text(&self) -> Seq<char> {
        "[]="@
    }

    fn name(&self) -> (name: &'static str) {
        "tiling"
    }

    fn symbol(&self) -> (symbol: &'static str) {
        "[]="
    }

    fn arrange(
        &self,
        windows: &[Window],
        screen_width: u32,
        screen_height: u32,
        gaps: &GapConfig,
        master_factor: u32,
        num_master: i32,
        smartgaps_enabled: bool,
    ) -> (geometries: Vec<WindowGeometry>) {
        let window_count: usize = windows.len();
        let values = Self::getgaps(gaps, window_count, smartgaps_enabled);
        let outer_h: u32 = values.outer_horizontal;
        let outer_v: u32 = values.outer_vertical;
        let inner_h: u32 = values.inner_horizontal;
        let inner_v: u32 = values.inner_vertical;

        let wanted: usize = if num_master > 0 {
            num_master as usize
        } else {
            0
        };
        let masters: usize = if window_count < wanted {
            window_count
        } else {
            wanted
        };
        let stacked: usize = window_count - masters;
        let master_height: u32 = Self::column_height_of(screen_height, outer_h, inner_h, masters);
        let stack_height: u32 = Self::column_height_of(screen_height, outer_h, inner_h, stacked);

        let inner_width: u32 = if (screen_width as u64) > 2 * (outer_v as u64) {
            ((screen_width as u64) - 2 * (outer_v as u64)) as u32
        } else {
            0
        };
        let split = num_master > 0 && window_count > wanted;
        let mut stack_width: u32 = inner_width;
        let mut master_width: u32 = inner_width;
        let mut stack_x: u128 = outer_v as u128;
        if split {
            let shared: u64 = if inner_width > inner_v {
                (inner_width - inner_v) as u64
            } else {
                0
            };
            let rest: u64 = if master_factor < 100 {
                (100 - master_factor) as u64
            } else {
                0
            };
            assert(shared * rest <= 0xffff_ffff * 100) by (nonlinear_arith)
                requires
                    0 <= shared <= 0xffff_ffff,
                    0 <= rest <= 100,
            ;
            let scaled: u64 = shared * rest / 100;
            assert(scaled <= shared) by (nonlinear_arith)
                requires
                    scaled == shared * rest / 100,
                    0 <= shared,
                    0 <= rest <= 100,
            ;
            stack_width = scaled as u32;
            let taken: u64 = inner_v as u64 + stack_width as u64;
            master_width = if (inner_width as u64) > taken {
                ((inner_width as u64) - taken) as u32
            } else {
                0
            };
            stack_x = outer_v as u128 + master_width as u128 + inner_v as u128;
        }
        let mut geometries: Vec<WindowGeometry> = Vec::new();
        let mut index: usize = 0;
        while index < window_count
            invariant
                index <= window_count,
                window_count == windows@.len(),
                geometries@.len() == index,
                masters == Self::master_count(window_count as nat, num_master),
                stacked == window_count - masters,
                outer_h == smart_outer(gaps.outer_horizontal, window_count as nat, smartgaps_enabled),
                outer_v == smart_outer(gaps.outer_vertical, window_count as nat, smartgaps_enabled),
                inner_h == gaps.inner_horizontal,
                inner_v == gaps.inner_vertical,
                master_height == Self::column_height(screen_height, outer_h, inner_h, masters as int),
                stack_height == Self::column_height(screen_height, outer_h, inner_h, stacked as int),
                split == Self::is_split(window_count as nat, num_master),
                master_width == Self::master_width(
                    window_count as nat,
                    screen_width,
                    outer_v,
                    inner_v,
                    master_factor,
                    num_master,
                ),
                stack_width == Self::stack_width(
                    window_count as nat,
                    screen_width,
                    outer_v,
                    inner_v,
                    master_factor,
                    num_master,
                ),
                stack_x == if split {
                    outer_v + master_width + inner_v
                } else {
                    outer_v as int
                },
                forall|k: int|
                    0 <= k < index ==> geometries@[k] == Self::geometry(
                        k,
                        window_count as nat,
                        screen_width,
                        screen_height,
                        *gaps,
                        master_factor,
                        num_master,
                        smartgaps_enabled,
                    ),
            decreases window_count - index,
        {
            let geometry = if index < masters {
                let down: u128 = outer_h as u128 + shares_before_of(master_height, masters, index)
                    + times(inner_h, index);
                assert(down == outer_h + shares_before(
                    master_height as int,
                    masters as int,
                    index as int,
                ) + index * inner_h) by (nonlinear_arith)
                    requires
                        down == outer_h + shares_before(
                            master_height as int,
                            masters as int,
                            index as int,
                        ) + inner_h * index,
                ;
                WindowGeometry {
                    x_coordinate: to_coordinate(outer_v as u128),
                    y_coordinate: to_coordinate(down),
                    width: master_width,
                    height: share_of(master_height, masters, index),
                }
            } else {
                let place: usize = index - masters;
                let down: u128 = outer_h as u128 + shares_before_of(stack_height, stacked, place)
                    + times(inner_h, place);
                assert(down == outer_h + shares_before(
                    stack_height as int,
                    stacked as int,
                    place as int,
                ) + place * inner_h) by (nonlinear_arith)
                    requires
                        down == outer_h + shares_before(
                            stack_height as int,
                            stacked as int,
                            place as int,
                        ) + inner_h * place,
                ;
                WindowGeometry {
                    x_coordinate: to_coordinate(stack_x),
                    y_coordinate: to_coordinate(down),
                    width: stack_width,
                    height: share_of(stack_height, stacked, place),
                }
            };
            geometries.push(geometry);
            index += 1;
        }
        assert(geometries@ =~= self.geometries(
            windows@.len(),
            screen_width,
            screen_height,
            *gaps,
            master_factor,
            num_master,
            smartgaps_enabled,
        ));
        geometries
    }
}

} // verus!
