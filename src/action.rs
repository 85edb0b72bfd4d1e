//! Pending operators of Normal mode.

use vstd::prelude::*;

verus! {

/// An operator that waits for a motion to give it a range.
#[derive(Debug, Clone, Copy, PartialEq, Eq, Structural, Hash)]
pub enum Action {
    Delete,
    Replace,
}

} // verus!
