//! An interactive dashboard core for managing named shortcuts to external
//! command-line tools. Each shortcut carries an ordered list of typed
//! configuration fields whose shape is fixed by the shortcut's kind.
//!
//! The crate verifies the dual-pane selection/focus/edit state machine that
//! drives all user interaction, the scheme registry, the in-memory record
//! store behind it, and the per-backend command builders. Terminal rendering
//! and process spawning live outside the library.

pub mod builders;
pub mod controller;
pub mod laws;
pub mod naming;
pub mod objects;
pub mod pane;
pub mod scheme;
pub mod store;
pub mod text;
pub mod widths;

use vstd::prelude::*;

verus! {

/// Moves the selected row one step up, wrapping to the last row.
pub open spec fn spec_row_up(row: int, len: int) -> int {
    if row > 0 {
        row - 1
    } else {
        len - 1
    }
}

/// Moves the selected row one step down, wrapping to the first row.
pub open spec fn spec_row_down(row: int, len: int) -> int {
    if row < len - 1 {
        row + 1
    } else {
        0
    }
}

} // verus!
