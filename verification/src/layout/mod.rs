//! Layouts: pure functions from the number of tiled windows and the usable
//! area of a monitor to one rectangle per window.

use vstd::prelude::*;
use vstd::string::StringExecFns;
use crate::tags::Window;
use crate::text::lowercase;
use crate::text::same_text;
use crate::text::to_lowercase;
use crate::layout::grid::GridLayout;
use crate::layout::monocle::MonocleLayout;
use crate::layout::normie::NormieLayout;
use crate::layout::scrolling::ScrollingLayout;
use crate::layout::tabbed::TabbedLayout;
use crate::layout::tiling::TilingLayout;

pub mod grid;
pub mod monocle;
pub mod normie;
pub mod scrolling;
pub mod tabbed;
pub mod tiling;

verus! {

/// Gaps between windows (inner) and around the usable area (outer), in pixels.
/// The horizontal gaps separate rows, the vertical gaps separate columns.
#[derive(Clone, Copy, Debug, PartialEq, Eq, Structural)]
pub struct GapConfig {
    pub inner_horizontal: u32,
    pub inner_vertical: u32,
    pub outer_horizontal: u32,
    pub outer_vertical: u32,
}

/// Rectangle that a layout assigns to one window, relative to the usable area.
#[derive(Clone, Copy, Debug, PartialEq, Eq, Structural)]
pub struct WindowGeometry {
    pub x_coordinate: i32,
    pub y_coordinate: i32,
    pub width: u32,
    pub height: u32,
}

/// Outer and inner gaps as one arrangement applies them.
#[derive(Clone, Copy, Debug, PartialEq, Eq, Structural)]
pub struct GapValues {
    pub outer_horizontal: u32,
    pub outer_vertical: u32,
    pub inner_horizontal: u32,
    pub inner_vertical: u32,
}

/// An outer gap as "smart gaps" leave it: none around a lone window.
pub open spec fn smart_outer(gap: u32, window_count: nat, smartgaps_enabled: bool) -> u32 {
    if smartgaps_enabled && window_count == 1 {
        0
    } else {
        gap
    }
}

/// A layout strategy.  `master_factor` is the share of the width that the
/// master area takes, in hundredths; only the number of windows matters to a
/// layout, not which windows they are.
pub trait Layout {
    /// The rectangles for `window_count` windows, in tiling order.
    spec fn geometries(
        &self,
        window_count: nat,
        screen_width: u32,
        screen_height: u32,
        gaps: GapConfig,
        master_factor: u32,
        num_master: i32,
        smartgaps_enabled: bool,
    ) -> Seq<WindowGeometry>;

    /// The name under which the layout is selected.
    spec fn name_text(&self) -> Seq<char>;

    /// The symbol that the bar shows for the layout.
    spec fn symbol_text(&self) -> Seq<char>;

    fn arrange(
        &self,
        windows: &[Window],
        screen_width: u32,
        screen_height: u32,
        gaps: &GapConfig,
        master_factor: u32,
        num_master: i32,
        smartgaps_enabled: bool,
    ) -> (geometries: Vec<WindowGeometry>)
        ensures
            geometries@ == self.geometries(
                windows@.len(),
                screen_width,
                screen_height,
                *gaps,
                master_factor,
                num_master,
                smartgaps_enabled,
            ),
    ;

    fn name(&self) -> (name: &'static str)
        ensures
            name@ == self.name_text(),
    ;

    fn symbol(&self) -> (symbol: &'static str)
        ensures
            symbol@ == self.symbol_text(),
    ;
}

/// The closed set of layouts.
#[derive(Clone, Copy, Debug, PartialEq, Eq, Structural)]
pub enum LayoutType {
    Tiling,
    Normie,
    Grid,
    Monocle,
    Tabbed,
    Scrolling,
}

impl LayoutType {
    /// The layout that a lowercase name selects; "floating" is a second name
    /// of the normie layout.
    pub open spec fn named(name: Seq<char>) -> Option<LayoutType> {
        if name == "tiling"@ {
            Some(LayoutType::Tiling)
        } else if name == "normie"@ || name == "floating"@ {
            Some(LayoutType::Normie)
        } else if name == "grid"@ {
            Some(LayoutType::Grid)
        } else if name == "monocle"@ {
            Some(LayoutType::Monocle)
        } else if name == "tabbed"@ {
            Some(LayoutType::Tabbed)
        } else if name == "scrolling"@ {
            Some(LayoutType::Scrolling)
        } else {
            None
        }
    }

    /// The layout after this one in the cycle
    /// tiling, normie, grid, monocle, tabbed, scrolling, tiling.
    pub open spec fn successor(self) -> LayoutType {
        match self {
            LayoutType::Tiling => LayoutType::Normie,
            LayoutType::Normie => LayoutType::Grid,
            LayoutType::Grid => LayoutType::Monocle,
            LayoutType::Monocle => LayoutType::Tabbed,
            LayoutType::Tabbed => LayoutType::Scrolling,
            LayoutType::Scrolling => LayoutType::Tiling,
        }
    }

    /// The name of the layout.
    pub open spec fn name_text(self) -> Seq<char> {
        match self {
            LayoutType::Tiling => "tiling"@,
            LayoutType::Normie => "normie"@,
            LayoutType::Grid => "grid"@,
            LayoutType::Monocle => "monocle"@,
            LayoutType::Tabbed => "tabbed"@,
            LayoutType::Scrolling => "scrolling"@,
        }
    }

    /// The symbol that the bar shows for the layout.
    pub open spec fn symbol_text(self) -> Seq<char> {
        match self {
            LayoutType::Tiling => TilingLayout.symbol_text(),
            LayoutType::Normie => NormieLayout.symbol_text(),
            LayoutType::Grid => GridLayout.symbol_text(),
            LayoutType::Monocle => MonocleLayout.symbol_text(),
            LayoutType::Tabbed => TabbedLayout.symbol_text(),
            LayoutType::Scrolling => ScrollingLayout.symbol_text(),
        }
    }

    /// The rectangles that the layout gives `window_count` windows.
    pub open spec fn geometries(
        self,
        window_count: nat,
        screen_width: u32,
        screen_height: u32,
        gaps: GapConfig,
        master_factor: u32,
        num_master: i32,
        smartgaps_enabled: bool,
    ) -> Seq<WindowGeometry> {
        match self {
            LayoutType::Tiling => TilingLayout.geometries(
                window_count,
                screen_width,
                screen_height,
                gaps,
                master_factor,
                num_master,
                smartgaps_enabled,
            ),
            LayoutType::Normie => NormieLayout.geometries(
                window_count,
                screen_width,
                screen_height,
                gaps,
                master_factor,
                num_master,
                smartgaps_enabled,
            ),
            LayoutType::Grid => GridLayout.geometries(
                window_count,
                screen_width,
                screen_height,
                gaps,
                master_factor,
                num_master,
                smartgaps_enabled,
            ),
            LayoutType::Monocle => MonocleLayout.geometries(
                window_count,
                screen_width,
                screen_height,
                gaps,
                master_factor,
                num_master,
                smartgaps_enabled,
            ),
            LayoutType::Tabbed => TabbedLayout.geometries(
                window_count,
                screen_width,
                screen_height,
                gaps,
                master_factor,
                num_master,
                smartgaps_enabled,
            ),
            LayoutType::Scrolling => ScrollingLayout.geometries(
                window_count,
                screen_width,
                screen_height,
                gaps,
                master_factor,
                num_master,
                smartgaps_enabled,
            ),
        }
    }

    pub fn next(&self) -> (next: LayoutType)
        ensures
            next == self.successor(),
    {
        match self {
            LayoutType::Tiling => LayoutType::Normie,
            LayoutType::Normie => LayoutType::Grid,
            LayoutType::Grid => LayoutType::Monocle,
            LayoutType::Monocle => LayoutType::Tabbed,
            LayoutType::Tabbed => LayoutType::Scrolling,
            LayoutType::Scrolling => LayoutType::Tiling,
        }
    }

    pub fn as_str(&self) -> (name: &'static str)
        ensures
            name@ == self.name_text(),
    {
        match self {
            LayoutType::Tiling => "tiling",
            LayoutType::Normie => "normie",
            LayoutType::Grid => "grid",
            LayoutType::Monocle => "monocle",
            LayoutType::Tabbed => "tabbed",
            LayoutType::Scrolling => "scrolling",
        }
    }

    pub fn symbol(&self) -> (symbol: &'static str)
        ensures
            symbol@ == self.symbol_text(),
    {
        match self {
            LayoutType::Tiling => TilingLayout.symbol(),
            LayoutType::Normie => NormieLayout.symbol(),
            LayoutType::Grid => GridLayout.symbol(),
            LayoutType::Monocle => MonocleLayout.symbol(),
            LayoutType::Tabbed => TabbedLayout.symbol(),
            LayoutType::Scrolling => ScrollingLayout.symbol(),
        }
    }

    /// The layout that the lowercase name `name` selects.
    pub fn from_name(name: &str) -> (layout: Option<LayoutType>)
        ensures
            layout == Self::named(name@),
    {
        if same_text(name, "tiling") {
            Some(LayoutType::Tiling)
        } else if same_text(name, "normie") || same_text(name, "floating") {
            Some(LayoutType::Normie)
        } else if same_text(name, "grid") {
            Some(LayoutType::Grid)
        } else if same_text(name, "monocle") {
            Some(LayoutType::Monocle)
        } else if same_text(name, "tabbed") {
            Some(LayoutType::Tabbed)
        } else if same_text(name, "scrolling") {
            Some(LayoutType::Scrolling)
        } else {
            None
        }
    }

    /// The layout that `text` names, whatever its case; the error carries
    /// the text as it was given.
    pub fn from_str(text: &str) -> (layout: Result<LayoutType, String>)
        ensures
            match layout {
                Ok(found) => Self::named(lowercase(text@)) == Some(found),
                Err(message) => Self::named(lowercase(text@)).is_none() && message@
                    == "Invalid Layout Type: "@ + text@,
            },
    {
        let lowered = to_lowercase(text);
        match Self::from_name(lowered.as_str()) {
            Some(found) => Ok(found),
            None => {
                let mut message = String::from_str("Invalid Layout Type: ");
                message.append(text);
                Err(message)
            },
        }
    }

    /// Arranges `windows` as this layout does.
    pub fn arrange(
        &self,
        windows: &[Window],
        screen_width: u32,
        screen_height: u32,
        gaps: &GapConfig,
        master_factor: u32,
        num_master: i32,
        smartgaps_enabled: bool,
    ) -> (geometries: Vec<WindowGeometry>)
        ensures
            geometries@ == self.geometries(
                windows@.len(),
                screen_width,
                screen_height,
                *gaps,
                master_factor,
                num_master,
                smartgaps_enabled,
            ),
    {
        match self {
            LayoutType::Tiling => TilingLayout.arrange(
                windows,
                screen_width,
                screen_height,
                gaps,
                master_factor,
                num_master,
                smartgaps_enabled,
            ),
            LayoutType::Normie => NormieLayout.arrange(
                windows,
                screen_width,
                screen_height,
                gaps,
                master_factor,
                num_master,
                smartgaps_enabled,
            ),
            LayoutType::Grid => GridLayout.arrange(
                windows,
                screen_width,
                screen_height,
                gaps,
                master_factor,
                num_master,
                smartgaps_enabled,
            ),
            LayoutType::Monocle => MonocleLayout.arrange(
                windows,
                screen_width,
                screen_height,
                gaps,
                master_factor,
                num_master,
                smartgaps_enabled,
            ),
            LayoutType::Tabbed => TabbedLayout.arrange(
                windows,
                screen_width,
                screen_height,
                gaps,
                master_factor,
                num_master,
                smartgaps_enabled,
            ),
            LayoutType::Scrolling => ScrollingLayout.arrange(
                windows,
                screen_width,
                screen_height,
                gaps,
                master_factor,
                num_master,
                smartgaps_enabled,
            ),
        }
    }
}

/// The layout that `text` names, whatever its case.
pub fn layout_from_str(text: &str) -> (layout: Result<LayoutType, String>)
    ensures
        match layout {
            Ok(found) => LayoutType::named(lowercase(text@)) == Some(found),
            Err(message) => LayoutType::named(lowercase(text@)).is_none() && message@
                == "Invalid Layout Type: "@ + text@,
        },
{
    LayoutType::from_str(text)
}

/// Name of the layout that follows the layout of the lowercase name `name`
/// in the cycle; "tiling" where `name` selects no layout.
pub fn next_layout_of(name: &str) -> (next_name: &'static str)
    ensures
        next_name@ == match LayoutType::named(name@) {
            Some(current) => current.successor().name_text(),
            None => LayoutType::Tiling.name_text(),
        },
{
    match LayoutType::from_name(name) {
        Some(current) => current.next().as_str(),
        None => LayoutType::Tiling.as_str(),
    }
}

/// Name of the layout that follows the one that `current_name` names,
/// whatever its case; "tiling" where it names none.
pub fn next_layout(current_name: &str) -> (next_name: &'static str)
    ensures
        next_name@ == match LayoutType::named(lowercase(current_name@)) {
            Some(current) => current.successor().name_text(),
            None => LayoutType::Tiling.name_text(),
        },
{
    let lowered = to_lowercase(current_name);
    next_layout_of(lowered.as_str())
}

/// `a - b`, or 0 where `b` exceeds `a`.
pub open spec fn minus(a: int, b: int) -> int {
    if a > b {
        a - b
    } else {
        0
    }
}

/// A coordinate as it is stored: values beyond `i32::MAX` are held at it.
pub open spec fn coordinate(value: int) -> int {
    if value > i32::MAX {
        i32::MAX as int
    } else {
        value
    }
}

/// Size of part `index` when `total` pixels are cut into `count` parts that
/// differ by at most one pixel, the larger parts first.
pub open spec fn share(total: int, count: int, index: int) -> int {
    total / count + if index < total % count {
        1int
    } else {
        0int
    }
}

/// Pixels taken by the parts before part `index`.
pub open spec fn shares_before(total: int, count: int, index: int) -> int {
    index * (total / count) + if index < total % count {
        index
    } else {
        total % count
    }
}

/// `gap * count`, wide enough for any operands.
pub fn times(gap: u32, count: usize) -> (product: u128)
    ensures
        product == gap * count,
        product < 0x1_0000_0000_0000_0000_0000_0000,
{
    assert(0 <= gap * count < 0x1_0000_0000_0000_0000_0000_0000) by (nonlinear_arith)
        requires
            0 <= gap <= 0xffff_ffff,
            0 <= count <= 0xffff_ffff_ffff_ffff,
    ;
    (gap as u128) * (count as u128)
}

/// Stores a non-negative value as a coordinate.
pub fn to_coordinate(value: u128) -> (stored: i32)
    ensures
        stored == coordinate(value as int),
{
    if value > 0x7fff_ffff {
        i32::MAX
    } else {
        value as i32
    }
}

/// Length left of `length` between two outer gaps of `outer` pixels.
pub fn span_of(length: u32, outer: u32) -> (span: u32)
    ensures
        span == minus(length as int, 2 * outer),
{
    let taken: u64 = 2 * (outer as u64);
    if (length as u64) > taken {
        ((length as u64) - taken) as u32
    } else {
        0
    }
}

/// Computes `share`.
pub fn share_of(total: u32, count: usize, index: usize) -> (size: u32)
    requires
        count > 0,
    ensures
        size == share(total as int, count as int, index as int),
        size <= total,
{
    let total_wide: u128 = total as u128;
    let count_wide: u128 = count as u128;
    let quotient: u128 = total_wide / count_wide;
    let remainder: u128 = total_wide % count_wide;
    proof {
        vstd::arithmetic::div_mod::lemma_fundamental_div_mod(total as int, count as int);
        vstd::arithmetic::div_mod::lemma_mod_bound(total as int, count as int);
        vstd::arithmetic::div_mod::lemma_div_pos_is_pos(total as int, count as int);
        assert(remainder > 0 ==> quotient + 1 <= total) by (nonlinear_arith)
            requires
                total == count * quotient + remainder,
                count > 0,
                quotient >= 0,
                0 <= remainder < count,
        ;
        assert(quotient <= total) by (nonlinear_arith)
            requires
                total == count * quotient + remainder,
                count > 0,
                quotient >= 0,
                0 <= remainder,
        ;
    }
    if (index as u128) < remainder {
        (quotient + 1) as u32
    } else {
        quotient as u32
    }
}

/// Computes `shares_before`.
pub fn shares_before_of(total: u32, count: usize, index: usize) -> (size: u128)
    requires
        count > 0,
    ensures
        size == shares_before(total as int, count as int, index as int),
        size < 0x2_0000_0000_0000_0000_0000_0000,
{
    let total_wide: u128 = total as u128;
    let count_wide: u128 = count as u128;
    let quotient: u128 = total_wide / count_wide;
    let remainder: u128 = total_wide % count_wide;
    proof {
        vstd::arithmetic::div_mod::lemma_fundamental_div_mod(total as int, count as int);
        vstd::arithmetic::div_mod::lemma_mod_bound(total as int, count as int);
        vstd::arithmetic::div_mod::lemma_div_pos_is_pos(total as int, count as int);
        assert(quotient <= total) by (nonlinear_arith)
            requires
                total == count * quotient + remainder,
                count > 0,
                quotient >= 0,
                0 <= remainder,
        ;
    }
    let whole: u128 = times(quotient as u32, index);
    assert(whole == index * quotient) by (nonlinear_arith)
        requires
            whole == quotient * index,
    ;
    if (index as u128) < remainder {
        whole + index as u128
    } else {
        whole + remainder
    }
}

/// Sum of the first `index` shares.
pub open spec fn shares_sum(total: int, count: int, index: int) -> int
    decreases index,
{
    if index <= 0 {
        0
    } else {
        shares_sum(total, count, index - 1) + share(total, count, index - 1)
    }
}

/// The first `index` shares add up to `shares_before`.
pub proof fn lemma_shares_sum(total: int, count: int, index: int)
    requires
        0 <= total,
        0 < count,
        0 <= index,
    ensures
        shares_sum(total, count, index) == shares_before(total, count, index),
    decreases index,
{
    vstd::arithmetic::div_mod::lemma_mod_bound(total, count);
    let quotient = total / count;
    if index > 0 {
        lemma_shares_sum(total, count, index - 1);
        assert(index * quotient == (index - 1) * quotient + quotient) by (nonlinear_arith);
    } else {
        assert(index * quotient == 0) by (nonlinear_arith)
            requires
                index == 0,
        ;
    }
}

/// Cutting `total` pixels into `count` shares loses and gains nothing.
pub proof fn lemma_shares_fill(total: int, count: int)
    requires
        0 <= total,
        0 < count,
    ensures
        shares_sum(total, count, count) == total,
{
    lemma_shares_sum(total, count, count);
    vstd::arithmetic::div_mod::lemma_fundamental_div_mod(total, count);
    vstd::arithmetic::div_mod::lemma_mod_bound(total, count);
    assert(count * (total / count) == (total / count) * count) by (nonlinear_arith);
}

} // verus!
