//! The switches of the command line and what they select.

use crate::fs::TransferMode;
use crate::line::Separator;
use vstd::prelude::*;

verus! {

/// The switches that the command line offers.
#[derive(Clone, Copy, Debug, PartialEq, Eq, Structural)]
pub struct Cli {
    /// Records end in NUL, not in a line feed.
    pub null: bool,
    /// Copy instead of moving.
    pub copy: bool,
    /// Report each transfer.
    pub verbose: bool,
}

impl Cli {
    /// The record terminator that the switches select.
    pub fn separator(&self) -> (separator: Separator)
        ensures
            separator == if self.null {
                Separator::Null
            } else {
                Separator::Newline
            },
    {
        if self.null {
            Separator::Null
        } else {
            Separator::Newline
        }
    }

    /// The transfer mode that the switches select.
    pub fn mode(&self) -> (mode: TransferMode)
        ensures
            mode == if self.copy {
                TransferMode::Copy
            } else {
                TransferMode::Move
            },
    {
        if self.copy {
            TransferMode::Copy
        } else {
            TransferMode::Move
        }
    }
}

} // verus!
