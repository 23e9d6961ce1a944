//! Terminal size requirements.
use vstd::prelude::*;

verus! {

/// Minimum columns and rows required by the TUI.
pub const MIN_WIDTH: u16 = 160;
pub const MIN_HEIGHT: u16 = 50;

/// Requested window size on startup.
pub const PREFERRED_WIDTH: u16 = 160;
pub const PREFERRED_HEIGHT: u16 = 50;

pub fn is_large_enough(width: u16, height: u16) -> (r: bool)
    ensures
        r == (width >= MIN_WIDTH && height >= MIN_HEIGHT),
{
    width >= MIN_WIDTH && height >= MIN_HEIGHT
}

} // verus!
