//! The floating layout: it arranges nothing, every window keeps the place
//! that the user or a rule gave it.

use vstd::prelude::*;
use crate::tags::Window;
use crate::layout::GapConfig;
use crate::layout::Layout;
use crate::layout::WindowGeometry;

verus! {

#[derive(Clone, Copy, Debug)]
pub struct NormieLayout;

impl Layout for NormieLayout {
    open spec fn geometries(
        &self,
        window_count: nat,
        screen_width: u32,
        screen_height: u32,
        gaps: GapConfig,
        master_factor: u32,
        num_master: i32,
        smartgaps_enabled: bool,
    ) -> Seq<WindowGeometry> {
        Seq::empty()
    }

    open spec fn name_text(&self) -> Seq<char> {
        "normie"@
    }

    open spec fn symbol_text(&self) -> Seq<char> {
        "><>"@
    }

    fn name(&self) -> (name: &'static str) {
        "normie"
    }

    fn symbol(&self) -> (symbol: &'static str) {
        "><>"
    }

    fn arrange(
        &self,
        windows: &[Window],
        screen_width: u32,
        screen_height: u32,
        gaps: &GapConfig,
        master_factor: u32,
        num_master: i32,
        smartgaps_enabled: bool,
    ) -> (geometries: Vec<WindowGeometry>) {
        Vec::new()
    }
}

} // verus!
