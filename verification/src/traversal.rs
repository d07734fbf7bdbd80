//! Moving over the grid: distances, rings, disks, lines, and the local
//! coordinates around an origin.

use vstd::prelude::*;
use crate::cell::Cell;
use crate::grid;
use crate::grid::{
    cell_at_local_ij, cell_distance, cell_local_ij, disk_cells, path_cells, ring_cells,
};
use crate::types::{lemma_one_value_per_row, refuses_cells, EngineError, Series};
use crate::utils::{
    cells_of, indexes_of, pair_rows, parse_cell_indices, write_cell_lists, writes_cells,
};

verus! {

/// Whether `e` is the error of a call that reads cells from `first` and
/// `second` row by row together: the first of the two that holds no indexes
/// is named, and otherwise their lengths differ.
pub open spec fn refuses_pair(first: Series, second: Series, e: EngineError) -> bool {
    if !first.holds_indexes() {
        refuses_cells(first, e)
    } else if !second.holds_indexes() {
        refuses_cells(second, e)
    } else {
        first.spec_len() != second.spec_len() && e == EngineError::LengthMismatch
    }
}

/// Whether `first` and `second` can be read row by row together.
pub open spec fn reads_pair(first: Series, second: Series) -> bool {
    first.holds_indexes() && second.holds_indexes() && first.spec_len() == second.spec_len()
}

/// Reads the cells of two columns row by row together.
fn parse_cell_pairs(first: &Series, second: &Series) -> (r: Result<
    Vec<Option<(Cell, Cell)>>,
    EngineError,
>)
    ensures
        match r {
            Ok(rows) => reads_pair(*first, *second) && rows@.len() == first.spec_len()
                && forall|i: int|
                0 <= i < rows@.len() ==> match #[trigger] rows@[i] {
                    Some((a, b)) => first.cells()[i] == Some(a@) && second.cells()[i] == Some(b@),
                    None => first.cells()[i] is None || second.cells()[i] is None,
                },
            Err(e) => refuses_pair(*first, *second, e),
        },
{
    let firsts = match parse_cell_indices(first) {
        Ok(cells) => cells,
        Err(e) => {
            return Err(e);
        },
    };
    let seconds = match parse_cell_indices(second) {
        Ok(cells) => cells,
        Err(e) => {
            return Err(e);
        },
    };
    proof {
        lemma_one_value_per_row(*first);
        lemma_one_value_per_row(*second);
        assert(indexes_of(firsts@).len() == firsts@.len());
        assert(indexes_of(seconds@).len() == seconds@.len());
    }
    match pair_rows(&firsts, &seconds) {
        Ok(rows) => {
            assert forall|i: int| 0 <= i < rows@.len() implies match #[trigger] rows@[i] {
                Some((a, b)) => first.cells()[i] == Some(a@) && second.cells()[i] == Some(b@),
                None => first.cells()[i] is None || second.cells()[i] is None,
            } by {
                assert(indexes_of(firsts@)[i] == first.cells()[i]);
                assert(indexes_of(seconds@)[i] == second.cells()[i]);
            }
            Ok(rows)
        },
        Err(e) => Err(e),
    }
}

/// The number of grid steps between the cells of a row.
pub open spec fn distance_row(origin: Option<u64>, destination: Option<u64>) -> Option<i32> {
    match (origin, destination) {
        (Some(a), Some(b)) => cell_distance(a, b),
        _ => None,
    }
}

/// The number of grid steps from the cell of each row of `origin_series` to
/// the cell of the same row of `destination_series`.
///
/// A row is absent where either cell is, and where the grid finds no distance
/// between the two.
pub fn grid_distance(origin_series: &Series, destination_series: &Series) -> (r: Result<
    Vec<Option<i32>>,
    EngineError,
>)
    ensures
        match r {
            Ok(out) => reads_pair(*origin_series, *destination_series) && out@.len()
                == origin_series.spec_len() && forall|i: int|
                0 <= i < out@.len() ==> #[trigger] out@[i] == distance_row(
                    origin_series.cells()[i],
                    destination_series.cells()[i],
                ),
            Err(e) => refuses_pair(*origin_series, *destination_series, e),
        },
{
    let rows = match parse_cell_pairs(origin_series, destination_series) {
        Ok(rows) => rows,
        Err(e) => {
            return Err(e);
        },
    };
    let mut out: Vec<Option<i32>> = Vec::new();
    let mut i: usize = 0;
    while i < rows.len()
        invariant
            i <= rows@.len(),
            out@.len() == i,
            forall|k: int|
                0 <= k < rows@.len() ==> match #[trigger] rows@[k] {
                    Some((a, b)) => origin_series.cells()[k] == Some(a@)
                        && destination_series.cells()[k] == Some(b@),
                    None => origin_series.cells()[k] is None || destination_series.cells()[k]
                        is None,
                },
            forall|k: int|
                0 <= k < i ==> #[trigger] out@[k] == distance_row(
                    origin_series.cells()[k],
                    destination_series.cells()[k],
                ),
        decreases rows@.len() - i,
    {
        let row: Option<i32> = match rows[i] {
            Some((origin, destination)) => grid::distance(origin.bits(), destination.bits()),
            None => None,
        };
        out.push(row);
        i = i + 1;
    }
    Ok(out)
}

/// The cells exactly `k` steps away from the cell of a row.
pub open spec fn ring_row(cell: Option<u64>, k: u32) -> Option<Seq<u64>> {
    match cell {
        Some(bits) => Some(ring_cells(bits, k)),
        None => None,
    }
}

/// The cells at most `k` steps away from the cell of a row.
pub open spec fn disk_row(cell: Option<u64>, k: u32) -> Option<Seq<u64>> {
    match cell {
        Some(bits) => Some(disk_cells(bits, k)),
        None => None,
    }
}

/// The cell of a row, alone.
pub open spec fn single_row(cell: Option<u64>) -> Option<Seq<u64>> {
    match cell {
        Some(bits) => Some(seq![bits]),
        None => None,
    }
}

/// For each row, the cells exactly `k` grid steps away from its cell, written
/// in the type of `cell_series`. With `k == 0` that is the cell alone.
pub fn grid_ring(cell_series: &Series, k: u32) -> (r: Result<Vec<Option<Series>>, EngineError>)
    ensures
        match r {
            Ok(out) => cell_series.holds_indexes() && out@.len() == cell_series.spec_len()
                && forall|i: int|
                0 <= i < out@.len() ==> writes_cells(
                    #[trigger] out@[i],
                    ring_row(cell_series.cells()[i], k),
                    cell_series.spec_dtype(),
                ) && (k == 0 ==> writes_cells(
                    out@[i],
                    single_row(cell_series.cells()[i]),
                    cell_series.spec_dtype(),
                )),
            Err(e) => refuses_cells(*cell_series, e),
        },
{
    let cells = match parse_cell_indices(cell_series) {
        Ok(cells) => cells,
        Err(e) => {
            return Err(e);
        },
    };
    proof {
        lemma_one_value_per_row(*cell_series);
        assert(indexes_of(cells@).len() == cells@.len());
    }
    let mut rings: Vec<Option<Vec<u64>>> = Vec::new();
    let mut i: usize = 0;
    while i < cells.len()
        invariant
            i <= cells@.len(),
            rings@.len() == i,
            forall|j: int|
                0 <= j < i ==> cells_of(#[trigger] rings@[j]) == ring_row(indexes_of(cells@)[j], k),
            k == 0 ==> forall|j: int|
                0 <= j < i ==> cells_of(#[trigger] rings@[j]) == single_row(indexes_of(cells@)[j]),
        decreases cells@.len() - i,
    {
        let row: Option<Vec<u64>> = match cells[i] {
            Some(cell) => Some(grid::ring(cell.bits(), k)),
            None => None,
        };
        rings.push(row);
        i = i + 1;
    }
    let out = write_cell_lists(cell_series, &rings);
    assert forall|i: int| 0 <= i < out@.len() implies writes_cells(
        #[trigger] out@[i],
        ring_row(cell_series.cells()[i], k),
        cell_series.spec_dtype(),
    ) && (k == 0 ==> writes_cells(
        out@[i],
        single_row(cell_series.cells()[i]),
        cell_series.spec_dtype(),
    )) by {
        assert(cells_of(rings@[i]) == ring_row(indexes_of(cells@)[i], k));
    }
    Ok(out)
}

/// For each row, the cells at most `k` grid steps away from its cell, written
/// in the type of `cell_series`. With `k == 0` that is the cell alone.
pub fn grid_disk(cell_series: &Series, k: u32) -> (r: Result<Vec<Option<Series>>, EngineError>)
    ensures
        match r {
            Ok(out) => cell_series.holds_indexes() && out@.len() == cell_series.spec_len()
                && forall|i: int|
                0 <= i < out@.len() ==> writes_cells(
                    #[trigger] out@[i],
                    disk_row(cell_series.cells()[i], k),
                    cell_series.spec_dtype(),
                ) && (k == 0 ==> writes_cells(
                    out@[i],
                    single_row(cell_series.cells()[i]),
                    cell_series.spec_dtype(),
                )),
            Err(e) => refuses_cells(*cell_series, e),
        },
{
    let cells = match parse_cell_indices(cell_series) {
        Ok(cells) => cells,
        Err(e) => {
            return Err(e);
        },
    };
    proof {
        lemma_one_value_per_row(*cell_series);
        assert(indexes_of(cells@).len() == cells@.len());
    }
    let mut disks: Vec<Option<Vec<u64>>> = Vec::new();
    let mut i: usize = 0;
    while i < cells.len()
        invariant
            i <= cells@.len(),
            disks@.len() == i,
            forall|j: int|
                0 <= j < i ==> cells_of(#[trigger] disks@[j]) == disk_row(indexes_of(cells@)[j], k),
            k == 0 ==> forall|j: int|
                0 <= j < i ==> cells_of(#[trigger] disks@[j]) == single_row(indexes_of(cells@)[j]),
        decreases cells@.len() - i,
    {
        let row: Option<Vec<u64>> = match cells[i] {
            Some(cell) => Some(grid::disk(cell.bits(), k)),
            None => None,
        };
        disks.push(row);
        i = i + 1;
    }
    let out = write_cell_lists(cell_series, &disks);
    assert forall|i: int| 0 <= i < out@.len() implies writes_cells(
        #[trigger] out@[i],
        disk_row(cell_series.cells()[i], k),
        cell_series.spec_dtype(),
    ) && (k == 0 ==> writes_cells(
        out@[i],
        single_row(cell_series.cells()[i]),
        cell_series.spec_dtype(),
    )) by {
        assert(cells_of(disks@[i]) == disk_row(indexes_of(cells@)[i], k));
    }
    Ok(out)
}

/// The line of cells between the cells of a row.
pub open spec fn path_row(origin: Option<u64>, destination: Option<u64>) -> Option<Seq<u64>> {
    match (origin, destination) {
        (Some(a), Some(b)) => path_cells(a, b),
        _ => None,
    }
}

/// For each row, the line of cells from the cell of `origin_series` to the
/// cell of `destination_series`, both included, written in the type of
/// `origin_series`.
///
/// A row is absent where either cell is, and where the grid finds no such
/// line.
pub fn grid_path_cells(origin_series: &Series, destination_series: &Series) -> (r: Result<
    Vec<Option<Series>>,
    EngineError,
>)
    ensures
        match r {
            Ok(out) => reads_pair(*origin_series, *destination_series) && out@.len()
                == origin_series.spec_len() && forall|i: int|
                0 <= i < out@.len() ==> writes_cells(
                    #[trigger] out@[i],
                    path_row(origin_series.cells()[i], destination_series.cells()[i]),
                    origin_series.spec_dtype(),
                ),
            Err(e) => refuses_pair(*origin_series, *destination_series, e),
        },
{
    let rows = match parse_cell_pairs(origin_series, destination_series) {
        Ok(rows) => rows,
        Err(e) => {
            return Err(e);
        },
    };
    let mut lines: Vec<Option<Vec<u64>>> = Vec::new();
    let mut i: usize = 0;
    while i < rows.len()
        invariant
            i <= rows@.len(),
            lines@.len() == i,
            forall|k: int|
                0 <= k < rows@.len() ==> match #[trigger] rows@[k] {
                    Some((a, b)) => origin_series.cells()[k] == Some(a@)
                        && destination_series.cells()[k] == Some(b@),
                    None => origin_series.cells()[k] is None || destination_series.cells()[k]
                        is None,
                },
            forall|k: int|
                0 <= k < i ==> cells_of(#[trigger] lines@[k]) == path_row(
                    origin_series.cells()[k],
                    destination_series.cells()[k],
                ),
        decreases rows@.len() - i,
    {
        let row: Option<Vec<u64>> = match rows[i] {
            Some((origin, destination)) => grid::path(origin.bits(), destination.bits()),
            None => None,
        };
        lines.push(row);
        i = i + 1;
    }
    Ok(write_cell_lists(origin_series, &lines))
}

/// The local coordinates of the cell of a row around the origin of the row.
pub open spec fn local_ij_row(cell: Option<u64>, origin: Option<u64>) -> Option<(i32, i32)> {
    match (cell, origin) {
        (Some(a), Some(b)) => cell_local_ij(a, b),
        _ => None,
    }
}

/// For each row, the coordinates `(i, j)` of the cell of `cell_series` in the
/// local frame around the cell of `origin_series`.
///
/// A row is absent where either cell is, and where the cell lies outside what
/// the frame of the origin covers.
pub fn cell_to_local_ij(cell_series: &Series, origin_series: &Series) -> (r: Result<
    Vec<Option<(i32, i32)>>,
    EngineError,
>)
    ensures
        match r {
            Ok(out) => reads_pair(*cell_series, *origin_series) && out@.len()
                == cell_series.spec_len() && forall|i: int|
                0 <= i < out@.len() ==> #[trigger] out@[i] == local_ij_row(
                    cell_series.cells()[i],
                    origin_series.cells()[i],
                ),
            Err(e) => refuses_pair(*cell_series, *origin_series, e),
        },
{
    let rows = match parse_cell_pairs(cell_series, origin_series) {
        Ok(rows) => rows,
        Err(e) => {
            return Err(e);
        },
    };
    let mut out: Vec<Option<(i32, i32)>> = Vec::new();
    let mut i: usize = 0;
    while i < rows.len()
        invariant
            i <= rows@.len(),
            out@.len() == i,
            forall|k: int|
                0 <= k < rows@.len() ==> match #[trigger] rows@[k] {
                    Some((a, b)) => cell_series.cells()[k] == Some(a@) && origin_series.cells()[k]
                        == Some(b@),
                    None => cell_series.cells()[k] is None || origin_series.cells()[k] is None,
                },
            forall|k: int|
                0 <= k < i ==> #[trigger] out@[k] == local_ij_row(
                    cell_series.cells()[k],
                    origin_series.cells()[k],
                ),
        decreases rows@.len() - i,
    {
        let row: Option<(i32, i32)> = match rows[i] {
            Some((cell, origin)) => grid::local_ij(cell.bits(), origin.bits()),
            None => None,
        };
        out.push(row);
        i = i + 1;
    }
    Ok(out)
}

/// The cell at the coordinates of a row around the origin of the row.
pub open spec fn local_cell_row(origin: Option<u64>, i: Option<i32>, j: Option<i32>) -> Option<
    u64,
> {
    match (origin, i, j) {
        (Some(o), Some(i), Some(j)) => cell_at_local_ij(o, i, j),
        _ => None,
    }
}

/// For each row, the cell at the coordinates `(i, j)` of the local frame
/// around the cell of `origin_series`.
///
/// A row is absent where the origin or a coordinate is, and where no cell
/// lies at the coordinates. Columns of different lengths fail the call.
pub fn local_ij_to_cell(
    origin_series: &Series,
    i_series: &Vec<Option<i32>>,
    j_series: &Vec<Option<i32>>,
) -> (r: Result<Vec<Option<u64>>, EngineError>)
    ensures
        match r {
            Ok(out) => origin_series.holds_indexes() && origin_series.spec_len() == i_series@.len()
                && i_series@.len() == j_series@.len() && out@.len() == i_series@.len()
                && forall|k: int|
                0 <= k < out@.len() ==> #[trigger] out@[k] == local_cell_row(
                    origin_series.cells()[k],
                    i_series@[k],
                    j_series@[k],
                ),
            Err(e) => if !origin_series.holds_indexes() {
                refuses_cells(*origin_series, e)
            } else {
                !(origin_series.spec_len() == i_series@.len() && i_series@.len()
                    == j_series@.len()) && e == EngineError::LengthMismatch
            },
        },
{
    let origins = match parse_cell_indices(origin_series) {
        Ok(cells) => cells,
        Err(e) => {
            return Err(e);
        },
    };
    proof {
        lemma_one_value_per_row(*origin_series);
        assert(indexes_of(origins@).len() == origins@.len());
    }
    if origins.len() != i_series.len() || i_series.len() != j_series.len() {
        return Err(EngineError::LengthMismatch);
    }
    let mut out: Vec<Option<u64>> = Vec::new();
    let mut k: usize = 0;
    while k < origins.len()
        invariant
            k <= origins@.len(),
            origins@.len() == i_series@.len(),
            origins@.len() == j_series@.len(),
            out@.len() == k,
            forall|n: int|
                0 <= n < k ==> #[trigger] out@[n] == local_cell_row(
                    indexes_of(origins@)[n],
                    i_series@[n],
                    j_series@[n],
                ),
        decreases origins@.len() - k,
    {
        let row: Option<u64> = match (origins[k], i_series[k], j_series[k]) {
            (Some(origin), Some(i), Some(j)) => grid::at_local_ij(origin.bits(), i, j),
            _ => None,
        };
        out.push(row);
        k = k + 1;
    }
    Ok(out)
}

} // verus!
