//! What the status bar is configured with, and the arithmetic of a click on
//! it.  Drawing the bar is not the engine's business.

use vstd::prelude::*;
use vstd::string::StringExecFns;

pub mod blocks;

pub use crate::bar::blocks::Battery;
pub use crate::bar::blocks::Block;
pub use crate::bar::blocks::ButtonBlock;
pub use crate::bar::blocks::ShellBlock;
pub use crate::bar::blocks::StaticBlock;
pub use crate::bar::blocks::StatusBlock;
pub use crate::bar::blocks::TimedBlock;

verus! {

/// One block of the status line, as the configuration describes it.
#[derive(Debug)]
pub struct BlockConfig {
    pub format: String,
    pub command: BlockCommand,
    pub interval_secs: u64,
    pub color: u32,
    pub underline: bool,
}

/// Where a block takes its text from.
#[derive(Debug)]
pub enum BlockCommand {
    Shell { command: String, onclick_command: Option<String> },
    DateTime(String),
    Battery {
        format_charging: String,
        format_discharging: String,
        format_full: String,
        battery_name: Option<String>,
    },
    Ram,
    Static(String),
    Button(String),
}

/// A copy of an optional text.
pub fn copy_text(text: &Option<String>) -> (copy: Option<String>)
    ensures
        copy == *text,
{
    match text {
        Some(inner) => Some(inner.clone()),
        None => None,
    }
}

impl BlockConfig {
    /// The block that the configuration describes.
    pub fn to_block(&self) -> (block: StatusBlock)
        ensures
            match self.command {
                BlockCommand::Shell { command, onclick_command } => block matches StatusBlock::Shell(
                    shell,
                ) && shell.format@ == self.format@ && shell.command@ == command@
                    && shell.onclick_command == onclick_command && shell.interval_secs
                    == self.interval_secs && shell.color == self.color
                    && shell.cached_output.is_none() && shell.last_run_ms.is_none(),
                BlockCommand::DateTime(pattern) => block matches StatusBlock::DateTime(timed)
                    && timed.format@ == self.format@ && timed.pattern@ == pattern@
                    && timed.interval_secs == self.interval_secs && timed.color == self.color,
                BlockCommand::Battery {
                    format_charging,
                    format_discharging,
                    format_full,
                    battery_name,
                } => block matches StatusBlock::Battery(battery) && battery.format_charging@
                    == format_charging@ && battery.format_discharging@ == format_discharging@
                    && battery.format_full@ == format_full@ && battery.interval_secs
                    == self.interval_secs && battery.color == self.color && battery.battery_path@
                    == Battery::path_of(battery_name),
                BlockCommand::Ram => block matches StatusBlock::Ram(timed) && timed.format@
                    == self.format@ && timed.pattern@ == Seq::<char>::empty()
                    && timed.interval_secs == self.interval_secs && timed.color == self.color,
                BlockCommand::Static(text) => block matches StatusBlock::Static(fixed)
                    && fixed.text@ == self.format@ + text@ && fixed.color == self.color,
                BlockCommand::Button(command) => block matches StatusBlock::Button(button)
                    && button.text@ == self.format@ && button.color == self.color
                    && button.command@ == command@,
            },
    {
        match &self.command {
            BlockCommand::Shell { command, onclick_command } => {
                let on_click: Option<&String> = match onclick_command {
                    Some(text) => Some(text),
                    None => None,
                };
                let shell = ShellBlock::new(
                    self.format.as_str(),
                    command.as_str(),
                    on_click,
                    self.interval_secs,
                    self.color,
                );
                assert(shell.onclick_command == *onclick_command);
                StatusBlock::Shell(shell)
            },
            BlockCommand::DateTime(pattern) => StatusBlock::DateTime(
                TimedBlock::new(
                    self.format.as_str(),
                    pattern.as_str(),
                    self.interval_secs,
                    self.color,
                ),
            ),
            BlockCommand::Battery {
                format_charging,
                format_discharging,
                format_full,
                battery_name,
            } => StatusBlock::Battery(
                Battery::new(
                    format_charging.as_str(),
                    format_discharging.as_str(),
                    format_full.as_str(),
                    self.interval_secs,
                    self.color,
                    copy_text(battery_name),
                ),
            ),
            BlockCommand::Ram => {
                proof {
                    reveal_strlit("");
                    assert(""@ =~= Seq::<char>::empty());
                }
                StatusBlock::Ram(
                    TimedBlock::new(self.format.as_str(), "", self.interval_secs, self.color),
                )
            },
            BlockCommand::Static(text) => {
                let mut whole = String::from_str(self.format.as_str());
                whole.append(text.as_str());
                StatusBlock::Static(StaticBlock::new(whole.as_str(), self.color))
            },
            BlockCommand::Button(command) => StatusBlock::Button(
                ButtonBlock::new(self.format.as_str(), self.color, command.as_str()),
            ),
        }
    }
}

/// Left edge of tag `index`: the widths of the tags before it together.
pub open spec fn tag_left(tag_widths: Seq<u16>, index: int) -> int
    decreases index,
{
    if index <= 0 {
        0
    } else {
        tag_left(tag_widths, index - 1) + tag_widths[index - 1]
    }
}

/// The click at `click_x` falls on tag `index`.
pub open spec fn click_hits(tag_widths: Seq<u16>, index: int, click_x: i16) -> bool {
    0 <= index < tag_widths.len() && tag_left(tag_widths, index) <= click_x < tag_left(
        tag_widths,
        index,
    ) + tag_widths[index]
}

/// The left edges grow with the index.
pub proof fn lemma_tag_left_grows(tag_widths: Seq<u16>, first: int, second: int)
    requires
        0 <= first <= second <= tag_widths.len(),
    ensures
        tag_left(tag_widths, first) <= tag_left(tag_widths, second),
    decreases second - first,
{
    if first < second {
        lemma_tag_left_grows(tag_widths, first, second - 1);
    }
}

/// The tag under a click on the bar, given the widths of the tag labels from
/// the left: the one whose label covers `click_x`.
pub fn tag_at_click(tag_widths: &[u16], click_x: i16) -> (tag: Option<usize>)
    ensures
        match tag {
            Some(index) => click_hits(tag_widths@, index as int, click_x),
            None => forall|index: int| !click_hits(tag_widths@, index, click_x),
        },
{
    if click_x < 0 {
        assert forall|index: int| !click_hits(tag_widths@, index, click_x) by {
            if 0 <= index < tag_widths@.len() {
                lemma_tag_left_grows(tag_widths@, 0, index);
            }
        }
        return None;
    }
    let mut left: u64 = 0;
    let mut index: usize = 0;
    while index < tag_widths.len()
        invariant
            index <= tag_widths@.len(),
            click_x >= 0,
            left == tag_left(tag_widths@, index as int),
            left <= click_x,
            forall|k: int| 0 <= k < index ==> !click_hits(tag_widths@, k, click_x),
        decreases tag_widths@.len() - index,
    {
        let width: u64 = tag_widths[index] as u64;
        if (click_x as u64) < left + width {
            return Some(index);
        }
        left = left + width;
        index += 1;
    }
    assert forall|k: int| !click_hits(tag_widths@, k, click_x) by {}
    None
}

/// The tab under a click on a strip of `count` tabs of equal width that is
/// `width` pixels wide.
pub open spec fn tab_under(width: u16, count: nat, click_x: i16) -> Option<int> {
    if count == 0 || click_x < 0 || width as int / count as int == 0 || click_x as int / (
    width as int / count as int) >= count {
        None
    } else {
        Some(click_x as int / (width as int / count as int))
    }
}

/// Computes `tab_under`.
pub fn tab_at_click(width: u16, count: usize, click_x: i16) -> (tab: Option<usize>)
    ensures
        match tab {
            Some(index) => tab_under(width, count as nat, click_x) == Some(index as int),
            None => tab_under(width, count as nat, click_x).is_none(),
        },
{
    if count == 0 || click_x < 0 {
        return None;
    }
    let tab_width: usize = (width as usize) / count;
    if tab_width == 0 {
        return None;
    }
    let index: usize = (click_x as usize) / tab_width;
    if index >= count {
        None
    } else {
        Some(index)
    }
}

} // verus!
