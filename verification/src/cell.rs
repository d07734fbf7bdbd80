//! One cell of the grid, and the operations on a single cell.

use vstd::prelude::*;
use vstd::arithmetic::power::pow;
use crate::grid;
use crate::grid::{
    cell_is_pentagon, cell_resolution, descendant_count, is_cell_index, MAX_RESOLUTION,
};

verus! {

/// The index of a cell: 64 bits that the grid accepts as one.
#[derive(Clone, Copy, Debug)]
pub struct Cell {
    bits: u64,
}

impl View for Cell {
    type V = u64;

    closed spec fn view(&self) -> u64 {
        self.bits
    }
}

impl Cell {
    #[verifier::type_invariant]
    spec fn accepted(self) -> bool {
        is_cell_index(self.bits)
    }

    /// The cell whose index is `bits`, if they are the index of one.
    pub fn new(bits: u64) -> (r: Option<Cell>)
        ensures
            r.is_some() == is_cell_index(bits),
            r matches Some(cell) ==> cell@ == bits,
    {
        if grid::index_is_cell(bits) {
            Some(Cell { bits })
        } else {
            None
        }
    }

    /// The index of the cell.
    pub fn bits(&self) -> (r: u64)
        ensures
            r == self@,
            is_cell_index(r),
    {
        proof {
            use_type_invariant(self);
        }
        self.bits
    }

    /// The resolution of the cell, from 0 to 15.
    pub fn resolution(&self) -> (r: u8)
        ensures
            r == cell_resolution(self@),
            r <= MAX_RESOLUTION,
    {
        index_resolution(self.bits)
    }

    /// Whether the cell is a pentagon.
    pub fn is_pentagon(&self) -> (r: bool)
        ensures
            r == cell_is_pentagon(self@),
    {
        proof {
            use_type_invariant(self);
        }
        grid::is_pentagon(self.bits)
    }

    /// Whether the resolution of the cell is of class III: an odd one.
    pub fn is_class_iii(&self) -> (r: bool)
        ensures
            r == (cell_resolution(self@) % 2 == 1),
    {
        self.resolution() % 2 == 1
    }

    /// The number of descendants of the cell at `resolution`.
    pub fn children_count(&self, resolution: u8) -> (r: u64)
        requires
            resolution <= MAX_RESOLUTION,
        ensures
            r == descendant_count(cell_resolution(self@), cell_is_pentagon(self@), resolution),
    {
        let own = self.resolution();
        if resolution < own {
            return 0;
        }
        let hexagons = power_of_seven(resolution - own);
        if self.is_pentagon() {
            1 + 5 * (hexagons - 1) / 6
        } else {
            hexagons
        }
    }
}

/// The resolution that the 64 bits `bits` carry, whether they are the index
/// of a cell or not.
pub fn index_resolution(bits: u64) -> (r: u8)
    ensures
        r == cell_resolution(bits),
        r <= MAX_RESOLUTION,
{
    assert(((bits >> 52) & 0xf) <= 15) by (bit_vector);
    ((bits >> 52) & 0xf) as u8
}

/// Seven to the power fifteen: the number of descendants of a hexagon fifteen
/// levels down.
pub const SEVEN_TO_THE_15: u64 = 4_747_561_509_943;

/// `pow(7, 15)` written out.
pub proof fn lemma_seven_to_the_15()
    ensures
        pow(7, 15) == SEVEN_TO_THE_15,
{
    reveal_with_fuel(pow, 16);
}

/// Seven to the power `n`, for `n` up to 15.
pub fn power_of_seven(n: u8) -> (r: u64)
    requires
        n <= 15,
    ensures
        r == pow(7, n as nat),
        1 <= r <= SEVEN_TO_THE_15,
{
    let mut r: u64 = 1;
    let mut i: u8 = 0;
    proof {
        reveal_with_fuel(pow, 1);
        lemma_seven_to_the_15();
        vstd::arithmetic::power::lemma_pow_increases(7, 0, 15);
    }
    while i < n
        invariant
            i <= n <= 15,
            r == pow(7, i as nat),
            1 <= r <= SEVEN_TO_THE_15,
        decreases n - i,
    {
        proof {
            reveal_with_fuel(pow, 2);
            lemma_seven_to_the_15();
            vstd::arithmetic::power::lemma_pow_increases(7, (i + 1) as nat, 15);
            vstd::arithmetic::power::lemma_pow_positive(7, (i + 1) as nat);
            assert(pow(7, (i + 1) as nat) == 7 * pow(7, i as nat));
        }
        r = r * 7;
        i = i + 1;
    }
    r
}

} // verus!
