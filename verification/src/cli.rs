//! The choices the command line can express, as plain values. Argument
//! parsing itself lives in the surrounding program; these enums are what the
//! library's logic branches on.

use vstd::prelude::*;

verus! {

/// Which service a login targets.
#[derive(Clone, Copy, PartialEq, Eq, Structural, Debug)]
pub enum Login {
    Moco,
    Jira,
}

/// What to do with an activity timer.
#[derive(Clone, Copy, PartialEq, Eq, Structural, Debug)]
pub enum Timer {
    Start,
    Stop,
}

/// Which source a synchronization pulls from.
#[derive(Clone, Copy, PartialEq, Eq, Structural, Debug)]
pub enum Sync {
    Jira,
}

} // verus!
