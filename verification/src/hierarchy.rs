//! Up and down the hierarchy of resolutions: parents, children, the rank of
//! a child among its siblings, and sets of cells in compact form.

use vstd::prelude::*;
use crate::cell::Cell;
use crate::grid;
use crate::grid::{
    cell_center_child, cell_child_at, cell_child_position, cell_children, cell_is_pentagon,
    cell_parent, cell_resolution, compacted_cells, descendant_count, distinct_cells, has_child_at,
    one_resolution, MAX_RESOLUTION,
};
use crate::types::{lemma_one_value_per_row, refuses_cells, EngineError, Series};
use crate::utils::{
    cells_of, index_of, indexes_of, parse_cell_indices, write_cell_lists, write_cells_like,
    writes_cells,
};

verus! {

/// Whether the resolution that a call asks for, if it asks for one, is above
/// 15.
pub open spec fn out_of_range(resolution: Option<u8>) -> bool {
    resolution matches Some(level) && level > MAX_RESOLUTION
}

/// Whether `e` is the error of a call that was given `resolution` and the
/// column `series`: a resolution above 15 is named first, and otherwise the
/// type of a column that holds no indexes.
pub open spec fn refuses_call(resolution: Option<u8>, series: Series, e: EngineError) -> bool {
    match resolution {
        Some(level) if level > MAX_RESOLUTION => e == EngineError::InvalidResolution(level),
        _ => refuses_cells(series, e),
    }
}

/// The resolution at which the ancestor of the cell `bits` is taken: the one
/// asked for, or else the next coarser one, if there is one.
pub open spec fn coarser_target(bits: u64, resolution: Option<u8>) -> Option<u8> {
    match resolution {
        Some(level) => Some(level),
        None => if cell_resolution(bits) > 0 {
            Some((cell_resolution(bits) - 1) as u8)
        } else {
            None
        },
    }
}

/// The resolution at which the descendants of the cell `bits` are taken: the
/// one asked for, or else the next finer one, if there is one.
pub open spec fn finer_target(bits: u64, resolution: Option<u8>) -> Option<u8> {
    match resolution {
        Some(level) => Some(level),
        None => if cell_resolution(bits) < MAX_RESOLUTION {
            Some((cell_resolution(bits) + 1) as u8)
        } else {
            None
        },
    }
}

/// The ancestor of the cell of a row.
pub open spec fn parent_row(cell: Option<u64>, resolution: Option<u8>) -> Option<u64> {
    match cell {
        Some(bits) => match coarser_target(bits, resolution) {
            Some(level) if level <= cell_resolution(bits) => Some(cell_parent(bits, level)),
            _ => None,
        },
        None => None,
    }
}

/// The center descendant of the cell of a row.
pub open spec fn center_child_row(cell: Option<u64>, resolution: Option<u8>) -> Option<u64> {
    match cell {
        Some(bits) => match finer_target(bits, resolution) {
            Some(level) if cell_resolution(bits) <= level <= MAX_RESOLUTION => Some(
                cell_center_child(bits, level),
            ),
            _ => None,
        },
        None => None,
    }
}

/// The number of descendants of the cell of a row.
pub open spec fn children_size_row(cell: Option<u64>, resolution: Option<u8>) -> Option<u64> {
    match cell {
        Some(bits) => match finer_target(bits, resolution) {
            Some(level) if level <= MAX_RESOLUTION => Some(
                descendant_count(cell_resolution(bits), cell_is_pentagon(bits), level) as u64,
            ),
            _ => None,
        },
        None => None,
    }
}

fn check_optional_resolution(resolution: Option<u8>) -> (r: Result<(), EngineError>)
    ensures
        match r {
            Ok(_) => !out_of_range(resolution),
            Err(e) => resolution matches Some(level) && level > MAX_RESOLUTION && e
                == EngineError::InvalidResolution(level),
        },
{
    match resolution {
        Some(level) => {
            if level > MAX_RESOLUTION {
                Err(EngineError::InvalidResolution(level))
            } else {
                Ok(())
            }
        },
        None => Ok(()),
    }
}

fn coarser(cell: &Cell, resolution: Option<u8>) -> (r: Option<u8>)
    ensures
        r == coarser_target(cell@, resolution),
        !out_of_range(resolution) ==> (r matches Some(level) ==> level <= MAX_RESOLUTION),
{
    match resolution {
        Some(level) => Some(level),
        None => {
            let own = cell.resolution();
            if own > 0 {
                Some(own - 1)
            } else {
                None
            }
        },
    }
}

fn finer(cell: &Cell, resolution: Option<u8>) -> (r: Option<u8>)
    ensures
        r == finer_target(cell@, resolution),
        !out_of_range(resolution) ==> (r matches Some(level) ==> level <= MAX_RESOLUTION),
{
    match resolution {
        Some(level) => Some(level),
        None => {
            let own = cell.resolution();
            if own < MAX_RESOLUTION {
                Some(own + 1)
            } else {
                None
            }
        },
    }
}

/// For each row, the ancestor of its cell at `resolution`, or one level up
/// where none is given, written in the type of `cell_series`.
///
/// A row is absent where its cell is, and where the resolution is finer than
/// the cell's own or the cell has no coarser one. A resolution above 15 fails
/// the call.
pub fn cell_to_parent(cell_series: &Series, resolution: Option<u8>) -> (r: Result<
    Series,
    EngineError,
>)
    ensures
        match r {
            Ok(out) => !out_of_range(resolution) && cell_series.holds_indexes() && out.writes(
                Seq::new(
                    cell_series.spec_len(),
                    |i: int| parent_row(cell_series.cells()[i], resolution),
                ),
                cell_series.spec_dtype(),
            ),
            Err(e) => refuses_call(resolution, *cell_series, e),
        },
{
    match check_optional_resolution(resolution) {
        Ok(_) => {},
        Err(e) => {
            return Err(e);
        },
    }
    let cells = match parse_cell_indices(cell_series) {
        Ok(cells) => cells,
        Err(e) => {
            return Err(e);
        },
    };
    proof {
        lemma_one_value_per_row(*cell_series);
        assert(indexes_of(cells@).len() == cells@.len());
    }
    let mut parents: Vec<Option<u64>> = Vec::new();
    let mut i: usize = 0;
    while i < cells.len()
        invariant
            i <= cells@.len(),
            !out_of_range(resolution),
            parents@.len() == i,
            forall|k: int|
                0 <= k < i ==> #[trigger] parents@[k] == parent_row(
                    indexes_of(cells@)[k],
                    resolution,
                ),
        decreases cells@.len() - i,
    {
        let row: Option<u64> = match cells[i] {
            Some(cell) => match coarser(&cell, resolution) {
                Some(level) => grid::parent(cell.bits(), level),
                None => None,
            },
            None => None,
        };
        parents.push(row);
        i = i + 1;
    }
    assert(parents@ =~= Seq::new(
        cell_series.spec_len(),
        |i: int| parent_row(cell_series.cells()[i], resolution),
    ));
    Ok(write_cells_like(cell_series, parents))
}

/// For each row, the center descendant of its cell at `resolution`, or one
/// level down where none is given, written in the type of `cell_series`.
///
/// A row is absent where its cell is, and where the resolution is coarser
/// than the cell's own or the cell has no finer one. A resolution above 15
/// fails the call.
pub fn cell_to_center_child(cell_series: &Series, resolution: Option<u8>) -> (r: Result<
    Series,
    EngineError,
>)
    ensures
        match r {
            Ok(out) => !out_of_range(resolution) && cell_series.holds_indexes() && out.writes(
                Seq::new(
                    cell_series.spec_len(),
                    |i: int| center_child_row(cell_series.cells()[i], resolution),
                ),
                cell_series.spec_dtype(),
            ),
            Err(e) => refuses_call(resolution, *cell_series, e),
        },
{
    match check_optional_resolution(resolution) {
        Ok(_) => {},
        Err(e) => {
            return Err(e);
        },
    }
    let cells = match parse_cell_indices(cell_series) {
        Ok(cells) => cells,
        Err(e) => {
            return Err(e);
        },
    };
    proof {
        lemma_one_value_per_row(*cell_series);
        assert(indexes_of(cells@).len() == cells@.len());
    }
    let mut children: Vec<Option<u64>> = Vec::new();
    let mut i: usize = 0;
    while i < cells.len()
        invariant
            i <= cells@.len(),
            !out_of_range(resolution),
            children@.len() == i,
            forall|k: int|
                0 <= k < i ==> #[trigger] children@[k] == center_child_row(
                    indexes_of(cells@)[k],
                    resolution,
                ),
        decreases cells@.len() - i,
    {
        let row: Option<u64> = match cells[i] {
            Some(cell) => match finer(&cell, resolution) {
                Some(level) => grid::center_child(cell.bits(), level),
                None => None,
            },
            None => None,
        };
        children.push(row);
        i = i + 1;
    }
    assert(children@ =~= Seq::new(
        cell_series.spec_len(),
        |i: int| center_child_row(cell_series.cells()[i], resolution),
    ));
    Ok(write_cells_like(cell_series, children))
}

/// For each row, the number of descendants of its cell at `resolution`, or
/// one level down where none is given: none at a resolution coarser than the
/// cell's own.
///
/// A row is absent where its cell is, and where no resolution is given and
/// the cell has no finer one. A resolution above 15 fails the call.
pub fn cell_to_children_size(cell_series: &Series, resolution: Option<u8>) -> (r: Result<
    Vec<Option<u64>>,
    EngineError,
>)
    ensures
        match r {
            Ok(out) => !out_of_range(resolution) && cell_series.holds_indexes() && out@.len()
                == cell_series.spec_len() && forall|i: int|
                0 <= i < out@.len() ==> #[trigger] out@[i] == children_size_row(
                    cell_series.cells()[i],
                    resolution,
                ),
            Err(e) => refuses_call(resolution, *cell_series, e),
        },
{
    match check_optional_resolution(resolution) {
        Ok(_) => {},
        Err(e) => {
            return Err(e);
        },
    }
    let cells = match parse_cell_indices(cell_series) {
        Ok(cells) => cells,
        Err(e) => {
            return Err(e);
        },
    };
    proof {
        lemma_one_value_per_row(*cell_series);
        assert(indexes_of(cells@).len() == cells@.len());
    }
    let mut out: Vec<Option<u64>> = Vec::new();
    let mut i: usize = 0;
    while i < cells.len()
        invariant
            i <= cells@.len(),
            !out_of_range(resolution),
            out@.len() == i,
            forall|k: int|
                0 <= k < i ==> #[trigger] out@[k] == children_size_row(
                    indexes_of(cells@)[k],
                    resolution,
                ),
        decreases cells@.len() - i,
    {
        let row: Option<u64> = match cells[i] {
            Some(cell) => match finer(&cell, resolution) {
                Some(level) => Some(cell.children_count(level)),
                None => None,
            },
            None => None,
        };
        out.push(row);
        i = i + 1;
    }
    Ok(out)
}

/// The descendants of the cell of a row.
pub open spec fn children_row(cell: Option<u64>, resolution: Option<u8>) -> Option<Seq<u64>> {
    match cell {
        Some(bits) => match finer_target(bits, resolution) {
            Some(level) if level <= MAX_RESOLUTION => Some(cell_children(bits, level)),
            _ => None,
        },
        None => None,
    }
}

/// For each row, the descendants of its cell at `resolution`, or one level
/// down where none is given, in the order of the grid and written in the
/// type of `cell_series`.
///
/// A row is absent where its cell is, and where no resolution is given and
/// the cell has no finer one. A resolution above 15 fails the call.
pub fn cell_to_children(cell_series: &Series, resolution: Option<u8>) -> (r: Result<
    Vec<Option<Series>>,
    EngineError,
>)
    ensures
        match r {
            Ok(out) => !out_of_range(resolution) && cell_series.holds_indexes() && out@.len()
                == cell_series.spec_len() && forall|i: int|
                0 <= i < out@.len() ==> writes_cells(
                    #[trigger] out@[i],
                    children_row(cell_series.cells()[i], resolution),
                    cell_series.spec_dtype(),
                ),
            Err(e) => refuses_call(resolution, *cell_series, e),
        },
{
    match check_optional_resolution(resolution) {
        Ok(_) => {},
        Err(e) => {
            return Err(e);
        },
    }
    let cells = match parse_cell_indices(cell_series) {
        Ok(cells) => cells,
        Err(e) => {
            return Err(e);
        },
    };
    proof {
        lemma_one_value_per_row(*cell_series);
        assert(indexes_of(cells@).len() == cells@.len());
    }
    let mut lists: Vec<Option<Vec<u64>>> = Vec::new();
    let mut i: usize = 0;
    while i < cells.len()
        invariant
            i <= cells@.len(),
            !out_of_range(resolution),
            lists@.len() == i,
            forall|k: int|
                0 <= k < i ==> cells_of(#[trigger] lists@[k]) == children_row(
                    indexes_of(cells@)[k],
                    resolution,
                ),
        decreases cells@.len() - i,
    {
        let row: Option<Vec<u64>> = match cells[i] {
            Some(cell) => match finer(&cell, resolution) {
                Some(level) => Some(grid::children(cell.bits(), level)),
                None => None,
            },
            None => None,
        };
        lists.push(row);
        i = i + 1;
    }
    let out = write_cell_lists(cell_series, &lists);
    assert forall|i: int| 0 <= i < out@.len() implies writes_cells(
        #[trigger] out@[i],
        children_row(cell_series.cells()[i], resolution),
        cell_series.spec_dtype(),
    ) by {
        assert(cells_of(lists@[i]) == children_row(indexes_of(cells@)[i], resolution));
    }
    Ok(out)
}

/// The rank of the cell of a row among the descendants of its ancestor at
/// `resolution`.
pub open spec fn child_pos_row(cell: Option<u64>, resolution: u8) -> Option<u64> {
    match cell {
        Some(bits) => if resolution <= cell_resolution(bits) {
            Some(cell_child_position(bits, resolution))
        } else {
            None
        },
        None => None,
    }
}

/// For each row, the rank of its cell among the descendants, at the cell's own
/// resolution, of the cell's ancestor at `resolution`.
///
/// A row is absent where its cell is, and where `resolution` is finer than
/// the cell's own. A resolution above 15 fails the call.
pub fn cell_to_child_pos(cell_series: &Series, resolution: u8) -> (r: Result<
    Vec<Option<u64>>,
    EngineError,
>)
    ensures
        match r {
            Ok(out) => resolution <= MAX_RESOLUTION && cell_series.holds_indexes() && out@.len()
                == cell_series.spec_len() && forall|i: int|
                0 <= i < out@.len() ==> #[trigger] out@[i] == child_pos_row(
                    cell_series.cells()[i],
                    resolution,
                ),
            Err(e) => refuses_call(Some(resolution), *cell_series, e),
        },
{
    match check_optional_resolution(Some(resolution)) {
        Ok(_) => {},
        Err(e) => {
            return Err(e);
        },
    }
    let cells = match parse_cell_indices(cell_series) {
        Ok(cells) => cells,
        Err(e) => {
            return Err(e);
        },
    };
    proof {
        lemma_one_value_per_row(*cell_series);
        assert(indexes_of(cells@).len() == cells@.len());
    }
    let mut out: Vec<Option<u64>> = Vec::new();
    let mut i: usize = 0;
    while i < cells.len()
        invariant
            i <= cells@.len(),
            resolution <= MAX_RESOLUTION,
            out@.len() == i,
            forall|k: int|
                0 <= k < i ==> #[trigger] out@[k] == child_pos_row(
                    indexes_of(cells@)[k],
                    resolution,
                ),
        decreases cells@.len() - i,
    {
        let row: Option<u64> = match cells[i] {
            Some(cell) => grid::child_position(cell.bits(), resolution),
            None => None,
        };
        out.push(row);
        i = i + 1;
    }
    Ok(out)
}

/// The descendant at `resolution` of the cell of a row that has the rank of
/// the row.
pub open spec fn child_at_row(cell: Option<u64>, position: Option<u64>, resolution: u8) -> Option<
    u64,
> {
    match (cell, position) {
        (Some(bits), Some(rank)) => if has_child_at(bits, rank, resolution) {
            Some(cell_child_at(bits, rank, resolution))
        } else {
            None
        },
        _ => None,
    }
}

/// For each row, the descendant at `resolution` of the cell of
/// `parent_series` whose rank among those descendants is the value of
/// `pos_series`, written in the type of `parent_series`.
///
/// A row is absent where the cell or the rank is, where `resolution` is
/// coarser than the cell's own, and where the cell has no more than that many
/// descendants. A resolution above 15, a column that holds no indexes, and
/// columns of different lengths fail the call, in that order.
pub fn child_pos_to_cell(parent_series: &Series, resolution: u8, pos_series: &Vec<Option<u64>>) -> (r:
    Result<Series, EngineError>)
    ensures
        match r {
            Ok(out) => resolution <= MAX_RESOLUTION && parent_series.holds_indexes()
                && parent_series.spec_len() == pos_series@.len() && out.writes(
                Seq::new(
                    parent_series.spec_len(),
                    |i: int| child_at_row(parent_series.cells()[i], pos_series@[i], resolution),
                ),
                parent_series.spec_dtype(),
            ),
            Err(e) => if resolution > MAX_RESOLUTION || !parent_series.holds_indexes() {
                refuses_call(Some(resolution), *parent_series, e)
            } else {
                parent_series.spec_len() != pos_series@.len() && e == EngineError::LengthMismatch
            },
        },
{
    match check_optional_resolution(Some(resolution)) {
        Ok(_) => {},
        Err(e) => {
            return Err(e);
        },
    }
    let cells = match parse_cell_indices(parent_series) {
        Ok(cells) => cells,
        Err(e) => {
            return Err(e);
        },
    };
    proof {
        lemma_one_value_per_row(*parent_series);
        assert(indexes_of(cells@).len() == cells@.len());
    }
    if cells.len() != pos_series.len() {
        return Err(EngineError::LengthMismatch);
    }
    let mut children: Vec<Option<u64>> = Vec::new();
    let mut i: usize = 0;
    while i < cells.len()
        invariant
            i <= cells@.len(),
            cells@.len() == pos_series@.len(),
            resolution <= MAX_RESOLUTION,
            children@.len() == i,
            forall|k: int|
                0 <= k < i ==> #[trigger] children@[k] == child_at_row(
                    indexes_of(cells@)[k],
                    pos_series@[k],
                    resolution,
                ),
        decreases cells@.len() - i,
    {
        let row: Option<u64> = match (cells[i], pos_series[i]) {
            (Some(cell), Some(rank)) => grid::child_at(cell.bits(), rank, resolution),
            _ => None,
        };
        children.push(row);
        i = i + 1;
    }
    assert(children@ =~= Seq::new(
        parent_series.spec_len(),
        |i: int| child_at_row(parent_series.cells()[i], pos_series@[i], resolution),
    ));
    Ok(write_cells_like(parent_series, children))
}

/// The cells among the rows `rows`, in their order: a row without a cell is
/// passed over.
pub open spec fn present_cells(rows: Seq<Option<u64>>) -> Seq<u64>
    decreases rows.len(),
{
    if rows.len() == 0 {
        Seq::empty()
    } else {
        match rows.last() {
            Some(bits) => present_cells(rows.drop_last()).push(bits),
            None => present_cells(rows.drop_last()),
        }
    }
}

/// The set of cells that a row of a column of lists holds.
pub open spec fn list_cells(row: Option<Series>) -> Option<Seq<u64>> {
    match row {
        Some(series) => Some(present_cells(series.cells())),
        None => None,
    }
}

/// Whether every list of `rows` has a type that holds indexes.
pub open spec fn lists_hold_indexes(rows: Seq<Option<Series>>) -> bool {
    forall|i: int|
        0 <= i < rows.len() ==> ((#[trigger] rows[i]) matches Some(series)
            ==> series.holds_indexes())
}

/// Whether `e` is the error of a call that was given the lists `rows` to read
/// cells from: it names the type of the first list that holds no indexes.
pub open spec fn refuses_lists(rows: Seq<Option<Series>>, e: EngineError) -> bool {
    exists|i: int|
        0 <= i < rows.len() && lists_hold_indexes(rows.subrange(0, i)) && ((#[trigger] rows[i])
            matches Some(series) && refuses_cells(series, e))
}

/// Whether `out` writes the cells `cells` in the type that the list `row`
/// has, or is absent where there are none to write.
pub open spec fn writes_like(out: Option<Series>, cells: Option<Seq<u64>>, row: Option<
    Series,
>) -> bool {
    match row {
        Some(series) => writes_cells(out, cells, series.spec_dtype()),
        None => out is None && cells is None,
    }
}

/// Picks the cells out of the rows `cells`.
fn gather_cells(cells: &Vec<Option<Cell>>) -> (set: Vec<u64>)
    ensures
        set@ == present_cells(indexes_of(cells@)),
        grid::all_cell_indexes(set@),
{
    let mut set: Vec<u64> = Vec::new();
    let mut i: usize = 0;
    let ghost rows = indexes_of(cells@);
    assert(rows.subrange(0, 0) =~= Seq::<Option<u64>>::empty());
    while i < cells.len()
        invariant
            i <= cells@.len(),
            rows == indexes_of(cells@),
            rows.len() == cells@.len(),
            set@ == present_cells(rows.subrange(0, i as int)),
            grid::all_cell_indexes(set@),
        decreases cells@.len() - i,
    {
        let ghost upto = rows.subrange(0, i + 1);
        assert(upto.drop_last() =~= rows.subrange(0, i as int));
        assert(upto.last() == index_of(cells@[i as int]));
        match cells[i] {
            Some(cell) => {
                set.push(cell.bits());
            },
            None => {},
        }
        i = i + 1;
    }
    assert(rows.subrange(0, i as int) =~= rows);
    set
}

/// The compact form of the set of cells of a row: nothing where the cells
/// are not all of one resolution, or one of them occurs twice.
pub open spec fn compact_row(set: Option<Seq<u64>>) -> Option<Seq<u64>> {
    match set {
        Some(cells) => if one_resolution(cells) && distinct_cells(cells) {
            Some(compacted_cells(cells))
        } else {
            None
        },
        None => None,
    }
}

/// For each row, the compact form of the set of cells that its list holds:
/// every complete group of siblings replaced by its parent, again and again.
/// Each answer is written in the type of the list it was made from.
///
/// What in a list is absent or no cell is passed over. A row is absent where
/// its list is, where the cells of the list are not all of one resolution, and
/// where one of them occurs twice. A list of a type that holds no indexes
/// fails the call.
pub fn compact_cells(cell_series: &Vec<Option<Series>>) -> (r: Result<
    Vec<Option<Series>>,
    EngineError,
>)
    ensures
        match r {
            Ok(out) => lists_hold_indexes(cell_series@) && out@.len() == cell_series@.len()
                && forall|i: int|
                0 <= i < out@.len() ==> writes_like(
                    #[trigger] out@[i],
                    compact_row(list_cells(cell_series@[i])),
                    cell_series@[i],
                ),
            Err(e) => refuses_lists(cell_series@, e),
        },
{
    let mut out: Vec<Option<Series>> = Vec::new();
    let mut i: usize = 0;
    while i < cell_series.len()
        invariant
            i <= cell_series@.len(),
            lists_hold_indexes(cell_series@.subrange(0, i as int)),
            out@.len() == i,
            forall|k: int|
                0 <= k < i ==> writes_like(
                    #[trigger] out@[k],
                    compact_row(list_cells(cell_series@[k])),
                    cell_series@[k],
                ),
        decreases cell_series@.len() - i,
    {
        let row: Option<Series> = match &cell_series[i] {
            Some(series) => {
                let cells = match parse_cell_indices(series) {
                    Ok(cells) => cells,
                    Err(e) => {
                        return Err(e);
                    },
                };
                let set = gather_cells(&cells);
                match grid::compact(&set) {
                    Some(compacted) => {
                        let values = crate::utils::present_values(&compacted);
                        Some(write_cells_like(series, values))
                    },
                    None => None,
                }
            },
            None => None,
        };
        out.push(row);
        assert(lists_hold_indexes(cell_series@.subrange(0, i + 1))) by {
            assert forall|k: int| 0 <= k < i + 1 implies ((#[trigger] cell_series@.subrange(
                0,
                i + 1,
            )[k]) matches Some(series) ==> series.holds_indexes()) by {
                if k < i {
                    assert(cell_series@.subrange(0, i as int)[k] == cell_series@[k]);
                }
            }
        }
        i = i + 1;
    }
    assert(cell_series@.subrange(0, i as int) =~= cell_series@);
    Ok(out)
}

/// The descendants at `resolution` of each cell of `cells` in turn.
pub open spec fn expanded_cells(cells: Seq<u64>, resolution: u8) -> Seq<u64>
    decreases cells.len(),
{
    if cells.len() == 0 {
        Seq::empty()
    } else {
        expanded_cells(cells.drop_last(), resolution) + cell_children(cells.last(), resolution)
    }
}

/// No cell of `cells` has a resolution finer than `resolution`.
pub open spec fn none_finer(cells: Seq<u64>, resolution: u8) -> bool {
    forall|i: int| 0 <= i < cells.len() ==> cell_resolution(#[trigger] cells[i]) <= resolution
}

/// The set of cells of a row, expanded to `resolution`: nothing where a cell
/// of it is finer than that.
pub open spec fn uncompact_row(set: Option<Seq<u64>>, resolution: u8) -> Option<Seq<u64>> {
    match set {
        Some(cells) => if none_finer(cells, resolution) {
            Some(expanded_cells(cells, resolution))
        } else {
            None
        },
        None => None,
    }
}

fn append_all(out: &mut Vec<u64>, more: &Vec<u64>)
    ensures
        final(out)@ == old(out)@ + more@,
{
    let mut i: usize = 0;
    while i < more.len()
        invariant
            i <= more@.len(),
            out@ == old(out)@ + more@.subrange(0, i as int),
        decreases more@.len() - i,
    {
        out.push(more[i]);
        assert(out@ =~= old(out)@ + more@.subrange(0, i + 1));
        i = i + 1;
    }
    assert(more@.subrange(0, i as int) =~= more@);
}

/// Expands the cells of `set` to `resolution`, if none of them is finer.
fn expand(set: &Vec<u64>, resolution: u8) -> (r: Option<Vec<u64>>)
    requires
        grid::all_cell_indexes(set@),
        resolution <= MAX_RESOLUTION,
    ensures
        cells_of(r) == uncompact_row(Some(set@), resolution),
{
    let mut i: usize = 0;
    while i < set.len()
        invariant
            i <= set@.len(),
            forall|k: int| 0 <= k < i ==> cell_resolution(#[trigger] set@[k]) <= resolution,
        decreases set@.len() - i,
    {
        if crate::cell::index_resolution(set[i]) > resolution {
            return None;
        }
        i = i + 1;
    }
    let mut out: Vec<u64> = Vec::new();
    let mut i: usize = 0;
    assert(set@.subrange(0, 0) =~= Seq::<u64>::empty());
    while i < set.len()
        invariant
            i <= set@.len(),
            grid::all_cell_indexes(set@),
            resolution <= MAX_RESOLUTION,
            out@ == expanded_cells(set@.subrange(0, i as int), resolution),
        decreases set@.len() - i,
    {
        let ghost upto = set@.subrange(0, i + 1);
        assert(upto.drop_last() =~= set@.subrange(0, i as int));
        assert(upto.last() == set@[i as int]);
        let children = grid::children(set[i], resolution);
        append_all(&mut out, &children);
        i = i + 1;
    }
    assert(set@.subrange(0, i as int) =~= set@);
    Some(out)
}

/// For each row, the set of cells that its list holds, expanded to
/// `resolution`: each cell replaced by its descendants there, a cell of that
/// resolution standing for itself. Each answer is written in the type of the
/// list it was made from.
///
/// What in a list is absent or no cell is passed over. A row is absent where
/// its list is, and where a cell of the list is finer than `resolution`. A
/// resolution above 15 fails the call, and so does a list of a type that
/// holds no indexes.
pub fn uncompact_cells(cell_series: &Vec<Option<Series>>, resolution: u8) -> (r: Result<
    Vec<Option<Series>>,
    EngineError,
>)
    ensures
        match r {
            Ok(out) => resolution <= MAX_RESOLUTION && lists_hold_indexes(cell_series@)
                && out@.len() == cell_series@.len() && forall|i: int|
                0 <= i < out@.len() ==> writes_like(
                    #[trigger] out@[i],
                    uncompact_row(list_cells(cell_series@[i]), resolution),
                    cell_series@[i],
                ),
            Err(e) => if resolution > MAX_RESOLUTION {
                e == EngineError::InvalidResolution(resolution)
            } else {
                refuses_lists(cell_series@, e)
            },
        },
{
    match check_optional_resolution(Some(resolution)) {
        Ok(_) => {},
        Err(e) => {
            return Err(e);
        },
    }
    let mut out: Vec<Option<Series>> = Vec::new();
    let mut i: usize = 0;
    while i < cell_series.len()
        invariant
            i <= cell_series@.len(),
            resolution <= MAX_RESOLUTION,
            lists_hold_indexes(cell_series@.subrange(0, i as int)),
            out@.len() == i,
            forall|k: int|
                0 <= k < i ==> writes_like(
                    #[trigger] out@[k],
                    uncompact_row(list_cells(cell_series@[k]), resolution),
                    cell_series@[k],
                ),
        decreases cell_series@.len() - i,
    {
        let row: Option<Series> = match &cell_series[i] {
            Some(series) => {
                let cells = match parse_cell_indices(series) {
                    Ok(cells) => cells,
                    Err(e) => {
                        return Err(e);
                    },
                };
                let set = gather_cells(&cells);
                match expand(&set, resolution) {
                    Some(expanded) => {
                        let values = crate::utils::present_values(&expanded);
                        Some(write_cells_like(series, values))
                    },
                    None => None,
                }
            },
            None => None,
        };
        out.push(row);
        assert(lists_hold_indexes(cell_series@.subrange(0, i + 1))) by {
            assert forall|k: int| 0 <= k < i + 1 implies ((#[trigger] cell_series@.subrange(
                0,
                i + 1,
            )[k]) matches Some(series) ==> series.holds_indexes()) by {
                if k < i {
                    assert(cell_series@.subrange(0, i as int)[k] == cell_series@[k]);
                }
            }
        }
        i = i + 1;
    }
    assert(cell_series@.subrange(0, i as int) =~= cell_series@);
    Ok(out)
}

} // verus!
