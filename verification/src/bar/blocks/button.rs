//! A block that starts a command when it is clicked.

use vstd::prelude::*;
use vstd::string::StringExecFns;
use crate::bar::blocks::Block;

verus! {

#[derive(Debug)]
pub struct ButtonBlock {
    pub text: String,
    pub color: u32,
    pub command: String,
}

impl ButtonBlock {
    pub fn new(text: &str, color: u32, command: &str) -> (block: ButtonBlock)
        ensures
            block.text@ == text@,
            block.color == color,
            block.command@ == command@,
    {
        ButtonBlock { text: String::from_str(text), color, command: String::from_str(command) }
    }
}

impl Block for ButtonBlock {
    open spec fn refresh_secs(&self) -> u64 {
        u64::MAX
    }

    open spec fn shade(&self) -> u32 {
        self.color
    }

    fn interval(&self) -> (seconds: u64) {
        u64::MAX
    }

    fn color(&self) -> (color: u32) {
        self.color
    }
}

} // verus!
