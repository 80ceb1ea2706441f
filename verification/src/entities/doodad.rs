//! Doodads.

use vstd::prelude::*;

verus! {

/// Decoration or obstacle; it blocks the cell that it stands on.
#[derive(PartialEq, Clone, Debug)]
pub struct Doodad {
    pub name: String,
    pub is_removable: bool,
}

} // verus!
