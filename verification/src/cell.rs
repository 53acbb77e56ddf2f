//! The state of one cell.

use vstd::prelude::*;

verus! {

/// What one position of the grid holds: `Dyaboo` is a live cell, `Void` an
/// empty one.
#[derive(Clone, Copy, Debug, PartialEq, Eq, Structural)]
pub enum Cell {
    Dyaboo,
    Void,
}

} // verus!
