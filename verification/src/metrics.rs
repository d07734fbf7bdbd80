//! Counts and fixed sets of the grid, and the units in which areas are asked
//! for.

use vstd::prelude::*;
use vstd::arithmetic::power::pow;
use vstd::string::*;
use vstd::utf8::is_ascii_chars;
use crate::cell::{power_of_seven, Cell};
use crate::grid;
use crate::grid::{base_cell_index, pentagon_cells, BASE_CELL_COUNT, MAX_RESOLUTION};
use crate::types::{lemma_one_value_per_row, refuses_cells, EngineError, Series};
use crate::utils::{indexes_of, parse_cell_indices};

verus! {

/// The number of cells of the grid at `resolution`: 120 base hexagons and 12
/// base pentagons, each hexagon split in seven and each pentagon in six at
/// every level.
pub open spec fn cell_count(resolution: nat) -> int {
    2 + 120 * pow(7, resolution)
}

/// Whether `e` is the error of a call that was given `resolution`: it is
/// above 15, and `e` names it.
pub open spec fn refuses_resolution(resolution: u8, e: EngineError) -> bool {
    resolution > MAX_RESOLUTION && e == EngineError::InvalidResolution(resolution)
}

/// Accepts a resolution from 0 to 15 and fails the call on any other.
pub fn check_resolution(resolution: u8) -> (r: Result<u8, EngineError>)
    ensures
        match r {
            Ok(accepted) => accepted == resolution && resolution <= MAX_RESOLUTION,
            Err(e) => refuses_resolution(resolution, e),
        },
{
    if resolution <= MAX_RESOLUTION {
        Ok(resolution)
    } else {
        Err(EngineError::InvalidResolution(resolution))
    }
}

/// The number of cells of the grid at `resolution`.
pub fn get_num_cells(resolution: u8) -> (r: Result<u64, EngineError>)
    ensures
        match r {
            Ok(count) => resolution <= MAX_RESOLUTION && count == cell_count(resolution as nat),
            Err(e) => refuses_resolution(resolution, e),
        },
{
    let resolution = match check_resolution(resolution) {
        Ok(resolution) => resolution,
        Err(e) => {
            return Err(e);
        },
    };
    Ok(2 + 120 * power_of_seven(resolution))
}

/// The cells of resolution 0, from base cell 0 to base cell 121.
pub fn get_res0_cells() -> (r: Result<Vec<u64>, EngineError>)
    ensures
        r matches Ok(cells) && cells@ == Seq::new(
            BASE_CELL_COUNT as nat,
            |base: int| base_cell_index(base as u64),
        ),
{
    Ok(grid::base_cells())
}

/// The twelve pentagons of `resolution`.
pub fn get_pentagons(resolution: u8) -> (r: Result<Vec<u64>, EngineError>)
    ensures
        match r {
            Ok(cells) => resolution <= MAX_RESOLUTION && cells@ == pentagon_cells(resolution)
                && cells@.len() == 12,
            Err(e) => refuses_resolution(resolution, e),
        },
{
    let resolution = match check_resolution(resolution) {
        Ok(resolution) => resolution,
        Err(e) => {
            return Err(e);
        },
    };
    Ok(grid::pentagons(resolution))
}

/// A unit of area.
#[derive(Clone, Copy, Debug, PartialEq, Eq, Structural)]
pub enum AreaUnit {
    /// Square kilometres, written `km^2`.
    SquareKilometres,
    /// Square metres, written `m^2`.
    SquareMetres,
    /// Square radians, written `rads^2`.
    SquareRadians,
}

/// The unit that the text `unit` names, if it names one.
pub open spec fn area_unit_named(unit: Seq<char>) -> Option<AreaUnit> {
    if unit == "km^2"@ {
        Some(AreaUnit::SquareKilometres)
    } else if unit == "m^2"@ {
        Some(AreaUnit::SquareMetres)
    } else if unit == "rads^2"@ {
        Some(AreaUnit::SquareRadians)
    } else {
        None
    }
}

/// Whether two texts are the same, the second being plain ASCII.
fn same_text(text: &str, expected: &str) -> (r: bool)
    requires
        is_ascii_chars(expected@),
    ensures
        r == (text@ == expected@),
{
    if !text.is_ascii() {
        return false;
    }
    let left = text.as_bytes();
    let right = expected.as_bytes();
    proof {
        is_ascii_spec_bytes(text);
        is_ascii_spec_bytes(expected);
    }
    if left.len() != right.len() {
        return false;
    }
    let mut i: usize = 0;
    while i < left.len()
        invariant
            i <= left@.len(),
            left@.len() == right@.len(),
            left@.len() == text@.len(),
            right@.len() == expected@.len(),
            is_ascii_chars(text@),
            is_ascii_chars(expected@),
            left@ == Seq::new(text@.len(), |k: int| text@[k] as u8),
            right@ == Seq::new(expected@.len(), |k: int| expected@[k] as u8),
            forall|k: int| 0 <= k < i ==> text@[k] == expected@[k],
        decreases left@.len() - i,
    {
        if left[i] != right[i] {
            assert(text@[i as int] != expected@[i as int]);
            return false;
        }
        assert(text@[i as int] as u8 == expected@[i as int] as u8);
        assert(text@[i as int] == expected@[i as int]);
        i = i + 1;
    }
    assert(text@ =~= expected@);
    true
}

/// Reads the name of a unit of area: `km^2`, `m^2` or `rads^2`. Any other
/// text names none.
pub fn parse_area_unit(unit: &str) -> (r: Option<AreaUnit>)
    ensures
        r == area_unit_named(unit@),
{
    proof {
        reveal_strlit("km^2");
        reveal_strlit("m^2");
        reveal_strlit("rads^2");
    }
    if same_text(unit, "km^2") {
        Some(AreaUnit::SquareKilometres)
    } else if same_text(unit, "m^2") {
        Some(AreaUnit::SquareMetres)
    } else if same_text(unit, "rads^2") {
        Some(AreaUnit::SquareRadians)
    } else {
        None
    }
}

/// For each row, the area of its cell in the unit that `unit` names, as
/// `area_of` gives it.
///
/// A row is absent where it has no cell. Where `unit` names no unit every row
/// is absent, and `area_of` is not asked.
pub fn cell_area<T, F: Fn(Cell, AreaUnit) -> T>(cell_series: &Series, unit: &str, area_of: F) -> (r:
    Result<Vec<Option<T>>, EngineError>)
    requires
        forall|cell: Cell, named: AreaUnit| #[trigger] area_of.requires((cell, named)),
    ensures
        match r {
            Ok(out) => cell_series.holds_indexes() && out@.len() == cell_series.spec_len()
                && forall|i: int|
                0 <= i < out@.len() ==> match #[trigger] out@[i] {
                    Some(area) => exists|cell: Cell, named: AreaUnit|
                        cell_series.cells()[i] == Some(cell@) && area_unit_named(unit@) == Some(
                            named,
                        ) && #[trigger] area_of.ensures((cell, named), area),
                    None => cell_series.cells()[i] is None || area_unit_named(unit@) is None,
                },
            Err(e) => refuses_cells(*cell_series, e),
        },
{
    let cells = match parse_cell_indices(cell_series) {
        Ok(cells) => cells,
        Err(e) => {
            return Err(e);
        },
    };
    proof {
        lemma_one_value_per_row(*cell_series);
        assert(indexes_of(cells@).len() == cells@.len());
    }
    let named = parse_area_unit(unit);
    let mut out: Vec<Option<T>> = Vec::new();
    let mut i: usize = 0;
    while i < cells.len()
        invariant
            i <= cells@.len(),
            named == area_unit_named(unit@),
            forall|cell: Cell, named: AreaUnit| #[trigger] area_of.requires((cell, named)),
            out@.len() == i,
            forall|k: int|
                0 <= k < i ==> match #[trigger] out@[k] {
                    Some(area) => exists|cell: Cell, named: AreaUnit|
                        indexes_of(cells@)[k] == Some(cell@) && area_unit_named(unit@) == Some(
                            named,
                        ) && #[trigger] area_of.ensures((cell, named), area),
                    None => indexes_of(cells@)[k] is None || area_unit_named(unit@) is None,
                },
        decreases cells@.len() - i,
    {
        let ghost before = out@;
        let ghost mut asked: Option<Cell> = None;
        let row: Option<T> = match (cells[i], named) {
            (Some(cell), Some(named)) => {
                let area = area_of(cell, named);
                proof {
                    asked = Some(cell);
                }
                Some(area)
            },
            _ => None,
        };
        assert(match row {
            Some(area) => asked matches Some(cell) && named matches Some(of) && indexes_of(
                cells@,
            )[i as int] == Some(cell@) && area_of.ensures((cell, of), area),
            None => indexes_of(cells@)[i as int] is None || named is None,
        });
        out.push(row);
        assert forall|k: int| 0 <= k < i + 1 implies match #[trigger] out@[k] {
            Some(area) => exists|cell: Cell, named: AreaUnit|
                indexes_of(cells@)[k] == Some(cell@) && area_unit_named(unit@) == Some(named)
                    && #[trigger] area_of.ensures((cell, named), area),
            None => indexes_of(cells@)[k] is None || area_unit_named(unit@) is None,
        } by {
            if k < i {
                assert(out@[k] == before[k]);
            } else {
                assert(out@[k] == row);
            }
        }
        i = i + 1;
    }
    Ok(out)
}

} // verus!
