//! The blocks of the status line.  A block knows its colour, how often its
//! text is to be read again, and what it is made of; reading the text is
//! the caller's business.

use vstd::prelude::*;
use vstd::string::StringExecFns;

pub mod battery;
pub mod button;
pub mod shell;

pub use crate::bar::blocks::battery::Battery;
pub use crate::bar::blocks::button::ButtonBlock;
pub use crate::bar::blocks::shell::ShellBlock;

verus! {

/// What every block of the status line tells about itself.
pub trait Block {
    /// Seconds after which the text is to be read again.
    spec fn refresh_secs(&self) -> u64;

    /// Colour of the text.
    spec fn shade(&self) -> u32;

    fn interval(&self) -> (seconds: u64)
        ensures
            seconds == self.refresh_secs(),
    ;

    fn color(&self) -> (color: u32)
        ensures
            color == self.shade(),
    ;
}

/// A block with a text that never changes.
#[derive(Debug)]
pub struct StaticBlock {
    pub text: String,
    pub color: u32,
}

impl StaticBlock {
    pub fn new(text: &str, color: u32) -> (block: StaticBlock)
        ensures
            block.text@ == text@,
            block.color == color,
    {
        StaticBlock { text: String::from_str(text), color }
    }
}

impl Block for StaticBlock {
    open spec fn refresh_secs(&self) -> u64 {
        u64::MAX
    }

    open spec fn shade(&self) -> u32 {
        self.color
    }

    fn interval(&self) -> (seconds: u64) {
        u64::MAX
    }

    fn color(&self) -> (color: u32) {
        self.color
    }
}

/// A block whose text is read from the clock or from the system at
/// intervals: the date and time in a pattern, or the memory in use.
#[derive(Debug)]
pub struct TimedBlock {
    pub format: String,
    pub pattern: String,
    pub interval_secs: u64,
    pub color: u32,
}

impl TimedBlock {
    pub fn new(format: &str, pattern: &str, interval_secs: u64, color: u32) -> (block: TimedBlock)
        ensures
            block.format@ == format@,
            block.pattern@ == pattern@,
            block.interval_secs == interval_secs,
            block.color == color,
    {
        TimedBlock {
            format: String::from_str(format),
            pattern: String::from_str(pattern),
            interval_secs,
            color,
        }
    }
}

impl Block for TimedBlock {
    open spec fn refresh_secs(&self) -> u64 {
        self.interval_secs
    }

    open spec fn shade(&self) -> u32 {
        self.color
    }

    fn interval(&self) -> (seconds: u64) {
        self.interval_secs
    }

    fn color(&self) -> (color: u32) {
        self.color
    }
}

/// The kinds of block.
#[derive(Debug)]
pub enum StatusBlock {
    Shell(ShellBlock),
    DateTime(TimedBlock),
    Battery(Battery),
    Ram(TimedBlock),
    Static(StaticBlock),
    Button(ButtonBlock),
}

impl Block for StatusBlock {
    open spec fn refresh_secs(&self) -> u64 {
        match self {
            StatusBlock::Shell(block) => block.refresh_secs(),
            StatusBlock::DateTime(block) => block.refresh_secs(),
            StatusBlock::Battery(block) => block.refresh_secs(),
            StatusBlock::Ram(block) => block.refresh_secs(),
            StatusBlock::Static(block) => block.refresh_secs(),
            StatusBlock::Button(block) => block.refresh_secs(),
        }
    }

    open spec fn shade(&self) -> u32 {
        match self {
            StatusBlock::Shell(block) => block.shade(),
            StatusBlock::DateTime(block) => block.shade(),
            StatusBlock::Battery(block) => block.shade(),
            StatusBlock::Ram(block) => block.shade(),
            StatusBlock::Static(block) => block.shade(),
            StatusBlock::Button(block) => block.shade(),
        }
    }

    fn interval(&self) -> (seconds: u64) {
        match self {
            StatusBlock::Shell(block) => block.interval(),
            StatusBlock::DateTime(block) => block.interval(),
            StatusBlock::Battery(block) => block.interval(),
            StatusBlock::Ram(block) => block.interval(),
            StatusBlock::Static(block) => block.interval(),
            StatusBlock::Button(block) => block.interval(),
        }
    }

    fn color(&self) -> (color: u32) {
        match self {
            StatusBlock::Shell(block) => block.color(),
            StatusBlock::DateTime(block) => block.color(),
            StatusBlock::Battery(block) => block.color(),
            StatusBlock::Ram(block) => block.color(),
            StatusBlock::Static(block) => block.color(),
            StatusBlock::Button(block) => block.color(),
        }
    }
}

} // verus!
