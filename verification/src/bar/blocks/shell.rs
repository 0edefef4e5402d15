//! A block whose text is the output of a shell command, read again when
//! its interval has passed.

use vstd::prelude::*;
use vstd::string::StringExecFns;
use crate::bar::blocks::Block;

verus! {

#[derive(Debug)]
pub struct ShellBlock {
    pub format: String,
    pub command: String,
    pub onclick_command: Option<String>,
    pub interval_secs: u64,
    pub color: u32,
    pub cached_output: Option<String>,
    /// Time of the last run, in milliseconds of the caller's clock.
    pub last_run_ms: Option<u64>,
}

impl ShellBlock {
    pub fn new(
        format: &str,
        command: &str,
        onclick_command: Option<&String>,
        interval_secs: u64,
        color: u32,
    ) -> (block: ShellBlock)
        ensures
            block.format@ == format@,
            block.command@ == command@,
            block.onclick_command == match onclick_command {
                Some(text) => Some(*text),
                None => None,
            },
            block.interval_secs == interval_secs,
            block.color == color,
            block.cached_output.is_none(),
            block.last_run_ms.is_none(),
    {
        ShellBlock {
            format: String::from_str(format),
            command: String::from_str(command),
            onclick_command: match onclick_command {
                Some(text) => Some(text.clone()),
                None => None,
            },
            interval_secs,
            color,
            cached_output: None,
            last_run_ms: None,
        }
    }

    /// The command is to be run again at the time `now`: it never ran, or
    /// the interval has passed since it ran.
    pub open spec fn is_due(self, now_ms: u64) -> bool {
        match self.last_run_ms {
            Some(last) => now_ms >= last && now_ms - last >= self.interval_secs * 1000,
            None => true,
        }
    }

    /// Computes `is_due`.
    pub fn should_refresh(&self, now_ms: u64) -> (due: bool)
        ensures
            due == self.is_due(now_ms),
    {
        match self.last_run_ms {
            Some(last) => now_ms >= last && (now_ms - last) as u128 >= (self.interval_secs as u128)
                * 1000,
            None => true,
        }
    }
}

impl Block for ShellBlock {
    open spec fn refresh_secs(&self) -> u64 {
        self.interval_secs
    }

    open spec fn shade(&self) -> u32 {
        self.color
    }

    fn interval(&self) -> (seconds: u64) {
        self.interval_secs
    }

    fn color(&self) -> (color: u32) {
        self.color
    }
}

} // verus!
