//! What a cell index says about itself: its resolution, whether it is one at
//! all, its shape, its class, and the faces it lies on.

use vstd::prelude::*;
use crate::grid;
use crate::grid::{cell_faces, cell_is_pentagon, cell_resolution, is_cell_index};
use crate::hex::to_hex;
use crate::types::{refuses_cells, text_of, EngineError, Series};
use crate::utils::{indexes_of, parse_cell_indices, parse_index_values};

verus! {

/// The resolution of the cell of a row.
pub open spec fn resolution_row(cell: Option<u64>) -> Option<u32> {
    match cell {
        Some(bits) => Some(cell_resolution(bits) as u32),
        None => None,
    }
}

/// The resolution of the cell of each row.
pub fn get_resolution(cell_series: &Series) -> (r: Result<Vec<Option<u32>>, EngineError>)
    ensures
        match r {
            Ok(out) => cell_series.holds_indexes() && out@.len() == cell_series.cells().len()
                && forall|i: int|
                0 <= i < out@.len() ==> #[trigger] out@[i] == resolution_row(
                    cell_series.cells()[i],
                ),
            Err(e) => refuses_cells(*cell_series, e),
        },
{
    let cells = match parse_cell_indices(cell_series) {
        Ok(cells) => cells,
        Err(e) => {
            return Err(e);
        },
    };
    let mut out: Vec<Option<u32>> = Vec::new();
    let mut i: usize = 0;
    while i < cells.len()
        invariant
            i <= cells@.len(),
            out@.len() == i,
            forall|k: int|
                0 <= k < i ==> #[trigger] out@[k] == resolution_row(indexes_of(cells@)[k]),
        decreases cells@.len() - i,
    {
        let row: Option<u32> = match cells[i] {
            Some(cell) => Some(cell.resolution() as u32),
            None => None,
        };
        out.push(row);
        i = i + 1;
    }
    Ok(out)
}

/// Whether the value of a row is the index of a cell; nothing for a row that
/// holds no value.
pub open spec fn validity_row(present: bool, value: Option<u64>) -> Option<bool> {
    if present {
        Some(value matches Some(bits) && is_cell_index(bits))
    } else {
        None
    }
}

/// Whether each row holds the index of a cell. A row without a value is
/// absent in the answer; text that is no hexadecimal number is no cell.
pub fn is_valid_cell(cell_series: &Series) -> (r: Result<Vec<Option<bool>>, EngineError>)
    ensures
        match r {
            Ok(out) => cell_series.holds_indexes() && out@.len() == cell_series.spec_len()
                && forall|i: int|
                0 <= i < out@.len() ==> #[trigger] out@[i] == validity_row(
                    cell_series.is_present(i),
                    cell_series.values()[i],
                ),
            Err(e) => refuses_cells(*cell_series, e),
        },
{
    let values = match parse_index_values(cell_series) {
        Ok(values) => values,
        Err(e) => {
            return Err(e);
        },
    };
    let mut out: Vec<Option<bool>> = Vec::new();
    let mut i: usize = 0;
    while i < values.len()
        invariant
            i <= values@.len(),
            cell_series.holds_indexes(),
            values@ == cell_series.values(),
            values@.len() == cell_series.spec_len(),
            out@.len() == i,
            forall|k: int|
                0 <= k < i ==> #[trigger] out@[k] == validity_row(
                    cell_series.is_present(k),
                    values@[k],
                ),
        decreases values@.len() - i,
    {
        let present = row_is_present(cell_series, i);
        let row: Option<bool> = if present {
            match values[i] {
                Some(bits) => Some(grid::index_is_cell(bits)),
                None => Some(false),
            }
        } else {
            None
        };
        out.push(row);
        i = i + 1;
    }
    Ok(out)
}

fn row_is_present(series: &Series, i: usize) -> (r: bool)
    requires
        i < series.spec_len(),
    ensures
        r == series.is_present(i as int),
{
    match series {
        Series::UInt64(values) => values[i].is_some(),
        Series::Int64(values) => values[i].is_some(),
        Series::String(values) => values[i].is_some(),
        Series::Other(_, _) => false,
    }
}

/// Whether the cell of a row is a pentagon.
pub open spec fn pentagon_row(cell: Option<u64>) -> Option<bool> {
    match cell {
        Some(bits) => Some(cell_is_pentagon(bits)),
        None => None,
    }
}

/// Whether the cell of each row is a pentagon.
pub fn is_pentagon(cell_series: &Series) -> (r: Result<Vec<Option<bool>>, EngineError>)
    ensures
        match r {
            Ok(out) => cell_series.holds_indexes() && out@.len() == cell_series.cells().len()
                && forall|i: int|
                0 <= i < out@.len() ==> #[trigger] out@[i] == pentagon_row(
                    cell_series.cells()[i],
                ),
            Err(e) => refuses_cells(*cell_series, e),
        },
{
    let cells = match parse_cell_indices(cell_series) {
        Ok(cells) => cells,
        Err(e) => {
            return Err(e);
        },
    };
    let mut out: Vec<Option<bool>> = Vec::new();
    let mut i: usize = 0;
    while i < cells.len()
        invariant
            i <= cells@.len(),
            out@.len() == i,
            forall|k: int| 0 <= k < i ==> #[trigger] out@[k] == pentagon_row(indexes_of(cells@)[k]),
        decreases cells@.len() - i,
    {
        let row: Option<bool> = match cells[i] {
            Some(cell) => Some(cell.is_pentagon()),
            None => None,
        };
        out.push(row);
        i = i + 1;
    }
    Ok(out)
}

/// Whether the cell of a row has a resolution of class III: an odd one.
pub open spec fn class_iii_row(cell: Option<u64>) -> Option<bool> {
    match cell {
        Some(bits) => Some(cell_resolution(bits) % 2 == 1),
        None => None,
    }
}

/// Whether the cell of each row has a resolution of class III.
#[allow(non_snake_case)]
pub fn is_res_class_III(cell_series: &Series) -> (r: Result<Vec<Option<bool>>, EngineError>)
    ensures
        match r {
            Ok(out) => cell_series.holds_indexes() && out@.len() == cell_series.cells().len()
                && forall|i: int|
                0 <= i < out@.len() ==> #[trigger] out@[i] == class_iii_row(
                    cell_series.cells()[i],
                ),
            Err(e) => refuses_cells(*cell_series, e),
        },
{
    let cells = match parse_cell_indices(cell_series) {
        Ok(cells) => cells,
        Err(e) => {
            return Err(e);
        },
    };
    let mut out: Vec<Option<bool>> = Vec::new();
    let mut i: usize = 0;
    while i < cells.len()
        invariant
            i <= cells@.len(),
            out@.len() == i,
            forall|k: int|
                0 <= k < i ==> #[trigger] out@[k] == class_iii_row(indexes_of(cells@)[k]),
        decreases cells@.len() - i,
    {
        let row: Option<bool> = match cells[i] {
            Some(cell) => Some(cell.is_class_iii()),
            None => None,
        };
        out.push(row);
        i = i + 1;
    }
    Ok(out)
}

/// The numbers of the faces `faces`, as signed 64-bit integers.
pub open spec fn face_numbers(faces: Seq<u8>) -> Seq<i64> {
    Seq::new(faces.len(), |k: int| faces[k] as i64)
}

/// Whether `row` lists the faces that the cell of a row intersects.
pub open spec fn faces_row(row: Option<Vec<i64>>, cell: Option<u64>) -> bool {
    match cell {
        Some(bits) => row matches Some(faces) && faces@ == face_numbers(cell_faces(bits)),
        None => row is None,
    }
}

fn widen_faces(faces: &Vec<u8>) -> (out: Vec<i64>)
    ensures
        out@ == face_numbers(faces@),
{
    let mut out: Vec<i64> = Vec::new();
    let mut k: usize = 0;
    while k < faces.len()
        invariant
            k <= faces@.len(),
            out@.len() == k,
            forall|j: int| 0 <= j < k ==> #[trigger] out@[j] == faces@[j] as i64,
        decreases faces@.len() - k,
    {
        out.push(faces[k] as i64);
        k = k + 1;
    }
    assert(out@ =~= face_numbers(faces@));
    out
}

/// The icosahedron faces that the cell of each row intersects, in ascending
/// order.
pub fn get_icosahedron_faces(cell_series: &Series) -> (r: Result<
    Vec<Option<Vec<i64>>>,
    EngineError,
>)
    ensures
        match r {
            Ok(out) => cell_series.holds_indexes() && out@.len() == cell_series.cells().len()
                && forall|i: int|
                0 <= i < out@.len() ==> faces_row(#[trigger] out@[i], cell_series.cells()[i]),
            Err(e) => refuses_cells(*cell_series, e),
        },
{
    let cells = match parse_cell_indices(cell_series) {
        Ok(cells) => cells,
        Err(e) => {
            return Err(e);
        },
    };
    let mut out: Vec<Option<Vec<i64>>> = Vec::new();
    let mut i: usize = 0;
    while i < cells.len()
        invariant
            i <= cells@.len(),
            out@.len() == i,
            forall|k: int| 0 <= k < i ==> faces_row(#[trigger] out@[k], indexes_of(cells@)[k]),
        decreases cells@.len() - i,
    {
        let row: Option<Vec<i64>> = match cells[i] {
            Some(cell) => {
                let faces = grid::faces(cell.bits());
                Some(widen_faces(&faces))
            },
            None => None,
        };
        out.push(row);
        i = i + 1;
    }
    Ok(out)
}

/// The 64 bits that each row denotes, as unsigned integers. Nothing is asked
/// of them but that the row denotes some: they need not be a cell.
pub fn str_to_int(cell_series: &Series) -> (r: Result<Vec<Option<u64>>, EngineError>)
    ensures
        match r {
            Ok(out) => cell_series.holds_indexes() && out@ == cell_series.values(),
            Err(e) => refuses_cells(*cell_series, e),
        },
{
    parse_index_values(cell_series)
}

/// What each row denotes, written in lowercase hexadecimal. Nothing is asked
/// of the 64 bits but that the row denotes some: they need not be a cell.
pub fn int_to_str(cell_series: &Series) -> (r: Result<Vec<Option<String>>, EngineError>)
    ensures
        match r {
            Ok(out) => cell_series.holds_indexes() && out@.len() == cell_series.values().len()
                && forall|i: int|
                0 <= i < out@.len() ==> text_of(#[trigger] out@[i]) == match cell_series.values()[i] {
                    Some(v) => Some(to_hex(v as nat)),
                    None => None,
                },
            Err(e) => refuses_cells(*cell_series, e),
        },
{
    let values = match parse_index_values(cell_series) {
        Ok(values) => values,
        Err(e) => {
            return Err(e);
        },
    };
    let mut out: Vec<Option<String>> = Vec::new();
    let mut i: usize = 0;
    while i < values.len()
        invariant
            i <= values@.len(),
            out@.len() == i,
            forall|k: int|
                0 <= k < i ==> text_of(#[trigger] out@[k]) == match values@[k] {
                    Some(v) => Some(to_hex(v as nat)),
                    None => None,
                },
        decreases values@.len() - i,
    {
        let row: Option<String> = match values[i] {
            Some(v) => Some(crate::hex::format_hex(v)),
            None => None,
        };
        out.push(row);
        i = i + 1;
    }
    Ok(out)
}

} // verus!
