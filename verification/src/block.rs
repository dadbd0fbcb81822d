//! The board's cell type: a pair of non-negative grid coordinates.

use vstd::prelude::*;

verus! {

/// One cell of the board, identified by its column `x` and row `y`.
#[derive(Copy, Clone, PartialEq, Eq, Structural, Debug)]
pub struct Block {
    pub x: u32,
    pub y: u32,
}

} // verus!
