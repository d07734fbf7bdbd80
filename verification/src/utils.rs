//! Reading cell indexes from a column in any of their encodings, and writing
//! them back in the encoding that the caller's column had.

use vstd::prelude::*;
use crate::cell::Cell;
use crate::hex::{format_hex, parse_hex, to_hex};
use crate::types::{
    as_cell, refuses_cells, signed_of_bits, signed_value, text_of, text_value, DataType,
    EngineError, Series,
};

verus! {

/// The index of an optional cell.
pub open spec fn index_of(cell: Option<Cell>) -> Option<u64> {
    match cell {
        Some(cell) => Some(cell@),
        None => None,
    }
}

/// The indexes of a column of optional cells.
pub open spec fn indexes_of(cells: Seq<Option<Cell>>) -> Seq<Option<u64>> {
    Seq::new(cells.len(), |i: int| index_of(cells[i]))
}

/// Whether cell indexes can be written in the type `dtype`.
pub open spec fn is_index_type(dtype: DataType) -> bool {
    dtype == DataType::UInt64 || dtype == DataType::Int64 || dtype == DataType::String
}

/// The type in which results are written: the one asked for, or else the
/// type of the caller's own column.
pub open spec fn final_type(column: DataType, target: Option<&DataType>) -> DataType {
    match target {
        Some(dtype) => *dtype,
        None => column,
    }
}

/// The element type of a list type, and any other type itself.
pub open spec fn inner_type(dtype: DataType) -> DataType {
    match dtype {
        DataType::List(inner) => *inner,
        other => other,
    }
}

fn cell_of(value: Option<u64>) -> (r: Option<Cell>)
    ensures
        index_of(r) == as_cell(value),
{
    match value {
        Some(bits) => Cell::new(bits),
        None => None,
    }
}

/// Reads what each row of `cell_series` denotes, whether it is a cell or not.
///
/// A column of any type but the three that hold indexes fails the call.
pub fn parse_index_values(cell_series: &Series) -> (r: Result<Vec<Option<u64>>, EngineError>)
    ensures
        match r {
            Ok(values) => cell_series.holds_indexes() && values@ == cell_series.values(),
            Err(e) => refuses_cells(*cell_series, e),
        },
{
    let mut out: Vec<Option<u64>> = Vec::new();
    match cell_series {
        Series::UInt64(values) => {
            out = copy_values(values);
        },
        Series::Int64(values) => {
            let mut i: usize = 0;
            while i < values.len()
                invariant
                    i <= values@.len(),
                    out@.len() == i,
                    forall|k: int| 0 <= k < i ==> #[trigger] out@[k] == signed_value(values@[k]),
                decreases values@.len() - i,
            {
                let value: Option<u64> = match values[i] {
                    Some(v) => Some(v as u64),
                    None => None,
                };
                out.push(value);
                i = i + 1;
            }
        },
        Series::String(values) => {
            let mut i: usize = 0;
            while i < values.len()
                invariant
                    i <= values@.len(),
                    out@.len() == i,
                    forall|k: int| 0 <= k < i ==> #[trigger] out@[k] == text_value(values@[k]),
                decreases values@.len() - i,
            {
                let value: Option<u64> = match &values[i] {
                    Some(text) => parse_hex(text.as_str()),
                    None => None,
                };
                out.push(value);
                i = i + 1;
            }
        },
        Series::Other(dtype, _) => {
            return Err(EngineError::UnsupportedCellType(dtype.duplicate()));
        },
    }
    assert(out@ =~= cell_series.values());
    Ok(out)
}

/// Reads the cell of each row of `cell_series`.
///
/// A row is absent in the result when it is absent in the column, when its
/// text is no hexadecimal number, or when its 64 bits are not the index of a
/// cell. A column of any type but the three that hold indexes fails the call.
pub fn parse_cell_indices(cell_series: &Series) -> (r: Result<Vec<Option<Cell>>, EngineError>)
    ensures
        match r {
            Ok(cells) => cell_series.holds_indexes() && indexes_of(cells@) == cell_series.cells(),
            Err(e) => refuses_cells(*cell_series, e),
        },
{
    let values = match parse_index_values(cell_series) {
        Ok(values) => values,
        Err(e) => {
            return Err(e);
        },
    };
    let mut cells: Vec<Option<Cell>> = Vec::new();
    let mut i: usize = 0;
    while i < values.len()
        invariant
            i <= values@.len(),
            cells@.len() == i,
            forall|k: int| 0 <= k < i ==> index_of(#[trigger] cells@[k]) == as_cell(values@[k]),
        decreases values@.len() - i,
    {
        cells.push(cell_of(values[i]));
        i = i + 1;
    }
    assert(indexes_of(cells@) =~= cell_series.cells());
    Ok(cells)
}

fn check_index_type(dtype: &DataType) -> (r: bool)
    ensures
        r == is_index_type(*dtype),
{
    match dtype {
        DataType::UInt64 => true,
        DataType::Int64 => true,
        DataType::String => true,
        _ => false,
    }
}

/// Writes `values` as signed numbers with the same bits.
fn write_signed(values: &Vec<Option<u64>>) -> (out: Vec<Option<i64>>)
    ensures
        Series::Int64(out).writes(values@, DataType::Int64),
{
    let mut out: Vec<Option<i64>> = Vec::new();
    let mut i: usize = 0;
    while i < values.len()
        invariant
            i <= values@.len(),
            out@.len() == i,
            forall|k: int|
                0 <= k < i ==> #[trigger] out@[k] == match values@[k] {
                    Some(v) => Some(signed_of_bits(v)),
                    None => None,
                },
        decreases values@.len() - i,
    {
        let value: Option<i64> = match values[i] {
            Some(v) => Some(v as i64),
            None => None,
        };
        out.push(value);
        i = i + 1;
    }
    out
}

/// Writes `values` as lowercase hexadecimal text.
fn write_text(values: &Vec<Option<u64>>) -> (out: Vec<Option<String>>)
    ensures
        Series::String(out).writes(values@, DataType::String),
{
    let mut out: Vec<Option<String>> = Vec::new();
    let mut i: usize = 0;
    while i < values.len()
        invariant
            i <= values@.len(),
            out@.len() == i,
            forall|k: int|
                0 <= k < i ==> text_of(#[trigger] out@[k]) == match values@[k] {
                    Some(v) => Some(to_hex(v as nat)),
                    None => None,
                },
        decreases values@.len() - i,
    {
        let value: Option<String> = match values[i] {
            Some(v) => Some(format_hex(v)),
            None => None,
        };
        out.push(value);
        i = i + 1;
    }
    out
}

/// Writes the indexes `result` as a column of the type asked for, or, where
/// none is asked for, of the type `original_dtype` of the caller's column.
///
/// A type that holds no indexes fails the call.
pub fn cast_u64_to_dtype(
    original_dtype: &DataType,
    target_dtype: Option<&DataType>,
    result: Vec<Option<u64>>,
) -> (r: Result<Series, EngineError>)
    ensures
        match r {
            Ok(out) => out.writes(result@, final_type(*original_dtype, target_dtype)),
            Err(e) => !is_index_type(final_type(*original_dtype, target_dtype)) && e
                == EngineError::UnsupportedResultType(final_type(*original_dtype, target_dtype)),
        },
{
    let final_dtype: &DataType = match target_dtype {
        Some(dtype) => dtype,
        None => original_dtype,
    };
    match final_dtype {
        DataType::UInt64 => Ok(Series::UInt64(result)),
        DataType::Int64 => Ok(Series::Int64(write_signed(&result))),
        DataType::String => Ok(Series::String(write_text(&result))),
        _ => Err(EngineError::UnsupportedResultType(final_dtype.duplicate())),
    }
}

/// Whether `out` writes each list of `lists` in the type `dtype`, an absent
/// list staying absent.
pub open spec fn writes_lists(
    out: Seq<Option<Series>>,
    lists: Seq<Option<Vec<Option<u64>>>>,
    dtype: DataType,
) -> bool {
    out.len() == lists.len() && forall|i: int|
        0 <= i < lists.len() ==> match #[trigger] lists[i] {
            Some(list) => out[i] matches Some(row) && row.writes(list@, dtype),
            None => out[i] is None,
        }
}

/// Writes each list of indexes of `list_series` as a column of the type asked
/// for, or, where none is asked for, of the type `original_dtype`. An absent
/// list stays absent.
///
/// A type that holds no indexes fails the call, whatever the lists hold.
pub fn cast_list_u64_to_dtype(
    list_series: &Vec<Option<Vec<Option<u64>>>>,
    original_dtype: &DataType,
    target_dtype: Option<&DataType>,
) -> (r: Result<Vec<Option<Series>>, EngineError>)
    ensures
        match r {
            Ok(out) => is_index_type(final_type(*original_dtype, target_dtype)) && writes_lists(
                out@,
                list_series@,
                final_type(*original_dtype, target_dtype),
            ),
            Err(e) => !is_index_type(final_type(*original_dtype, target_dtype)) && e
                == EngineError::UnsupportedListResultType(
                final_type(*original_dtype, target_dtype),
            ),
        },
{
    let final_dtype: &DataType = match target_dtype {
        Some(dtype) => dtype,
        None => original_dtype,
    };
    if !check_index_type(final_dtype) {
        return Err(EngineError::UnsupportedListResultType(final_dtype.duplicate()));
    }
    let mut out: Vec<Option<Series>> = Vec::new();
    let mut i: usize = 0;
    while i < list_series.len()
        invariant
            i <= list_series@.len(),
            is_index_type(*final_dtype),
            writes_lists(out@, list_series@.subrange(0, i as int), *final_dtype),
        decreases list_series@.len() - i,
    {
        let row: Option<Series> = match &list_series[i] {
            Some(list) => {
                let written = match final_dtype {
                    DataType::UInt64 => Series::UInt64(copy_values(list)),
                    DataType::Int64 => Series::Int64(write_signed(list)),
                    _ => Series::String(write_text(list)),
                };
                Some(written)
            },
            None => None,
        };
        let ghost before = out@;
        out.push(row);
        assert forall|k: int| 0 <= k < i + 1 implies match #[trigger] list_series@.subrange(
            0,
            i + 1,
        )[k] {
            Some(list) => out@[k] matches Some(row) && row.writes(list@, *final_dtype),
            None => out@[k] is None,
        } by {
            if k < i {
                assert(list_series@.subrange(0, i as int)[k] == list_series@[k]);
                assert(out@[k] == before[k]);
            }
        }
        i = i + 1;
    }
    assert(list_series@.subrange(0, i as int) =~= list_series@);
    Ok(out)
}

fn copy_values(values: &Vec<Option<u64>>) -> (out: Vec<Option<u64>>)
    ensures
        out@ == values@,
{
    let mut out: Vec<Option<u64>> = Vec::new();
    let mut i: usize = 0;
    while i < values.len()
        invariant
            i <= values@.len(),
            out@ =~= values@.subrange(0, i as int),
        decreases values@.len() - i,
    {
        out.push(values[i]);
        i = i + 1;
    }
    assert(values@.subrange(0, i as int) =~= values@);
    out
}

/// The type in which the indexes of a result are written when the caller's
/// column has the type `original_dtype`: that type itself, or for a column of
/// lists the type of their elements.
///
/// A type that holds no indexes fails the call.
pub fn resolve_target_inner_dtype(original_dtype: &DataType) -> (r: Result<DataType, EngineError>)
    ensures
        match r {
            Ok(dtype) => dtype == inner_type(*original_dtype) && is_index_type(dtype),
            Err(e) => !is_index_type(inner_type(*original_dtype)) && e
                == EngineError::UnsupportedInnerType(inner_type(*original_dtype)),
        },
{
    let inner: &DataType = match original_dtype {
        DataType::List(inner) => &**inner,
        other => other,
    };
    match inner {
        DataType::UInt64 => Ok(DataType::UInt64),
        DataType::Int64 => Ok(DataType::Int64),
        DataType::String => Ok(DataType::String),
        other => Err(EngineError::UnsupportedInnerType(other.duplicate())),
    }
}

/// Accepts a call that was given `found` columns where it reads `expected`,
/// and fails it on any other number.
pub fn check_column_count(found: usize, expected: usize) -> (r: Result<(), EngineError>)
    ensures
        match r {
            Ok(_) => found == expected,
            Err(e) => found != expected && e == EngineError::WrongColumnCount(expected, found),
        },
{
    if found == expected {
        Ok(())
    } else {
        Err(EngineError::WrongColumnCount(expected, found))
    }
}

/// The two values of a row, where both are present.
pub open spec fn pair_of<A, B>(a: Option<A>, b: Option<B>) -> Option<(A, B)> {
    match (a, b) {
        (Some(x), Some(y)) => Some((x, y)),
        _ => None,
    }
}

/// Reads two columns row by row together: a row is present where it is
/// present in both.
///
/// Columns of different lengths fail the call.
pub fn pair_rows<A: Copy, B: Copy>(first: &Vec<Option<A>>, second: &Vec<Option<B>>) -> (r: Result<
    Vec<Option<(A, B)>>,
    EngineError,
>)
    ensures
        match r {
            Ok(rows) => first@.len() == second@.len() && rows@.len() == first@.len()
                && forall|i: int|
                0 <= i < rows@.len() ==> #[trigger] rows@[i] == pair_of(first@[i], second@[i]),
            Err(e) => first@.len() != second@.len() && e == EngineError::LengthMismatch,
        },
{
    if first.len() != second.len() {
        return Err(EngineError::LengthMismatch);
    }
    let mut rows: Vec<Option<(A, B)>> = Vec::new();
    let mut i: usize = 0;
    while i < first.len()
        invariant
            i <= first@.len(),
            first@.len() == second@.len(),
            rows@.len() == i,
            forall|k: int| 0 <= k < i ==> #[trigger] rows@[k] == pair_of(first@[k], second@[k]),
        decreases first@.len() - i,
    {
        let row: Option<(A, B)> = match (first[i], second[i]) {
            (Some(x), Some(y)) => Some((x, y)),
            _ => None,
        };
        rows.push(row);
        i = i + 1;
    }
    Ok(rows)
}

/// Whether row `i` is present in every one of `columns`.
pub open spec fn row_is_present<V>(columns: Seq<Vec<Option<V>>>, i: int) -> bool {
    forall|c: int| 0 <= c < columns.len() ==> (#[trigger] columns[c])@[i] is Some
}

/// Whether `row` holds the values of row `i` of `columns`, one per column and
/// in their order.
pub open spec fn is_row_of<V>(row: Seq<V>, columns: Seq<Vec<Option<V>>>, i: int) -> bool {
    row.len() == columns.len() && forall|c: int|
        0 <= c < columns.len() ==> (#[trigger] columns[c])@[i] == Some(row[c])
}

/// Whether every column of `columns` has `len` rows.
pub open spec fn all_of_length<V>(columns: Seq<Vec<Option<V>>>, len: nat) -> bool {
    forall|c: int| 0 <= c < columns.len() ==> (#[trigger] columns[c])@.len() == len
}

/// Reads several columns row by row together and answers each row with
/// `row_fn`.
///
/// A row that is absent in any column is absent in the result, and `row_fn`
/// is not asked about it. Every other row is what `row_fn` makes of its
/// values, taken in the order of the columns. Columns of different lengths
/// fail the call.
pub fn parse_multi_f64_columns<V: Copy, T, F: Fn(&Vec<V>) -> Option<T>>(
    columns: &Vec<Vec<Option<V>>>,
    row_fn: F,
) -> (r: Result<Vec<Option<T>>, EngineError>)
    requires
        columns@.len() > 0,
        forall|row: &Vec<V>| row@.len() == columns@.len() ==> #[trigger] row_fn.requires((row,)),
    ensures
        match r {
            Ok(out) => all_of_length(columns@, out@.len()) && forall|i: int|
                0 <= i < out@.len() ==> if row_is_present(columns@, i) {
                    exists|row: &Vec<V>|
                        is_row_of(row@, columns@, i) && #[trigger] row_fn.ensures(
                            (row,),
                            out@[i],
                        )
                } else {
                    out@[i] is None
                },
            Err(e) => !all_of_length(columns@, columns@[0]@.len()) && e
                == EngineError::LengthMismatch,
        },
{
    let len = columns[0].len();
    let mut c: usize = 0;
    while c < columns.len()
        invariant
            c <= columns@.len(),
            len == columns@[0]@.len(),
            forall|k: int| 0 <= k < c ==> (#[trigger] columns@[k])@.len() == len,
        decreases columns@.len() - c,
    {
        if columns[c].len() != len {
            return Err(EngineError::LengthMismatch);
        }
        c = c + 1;
    }
    let mut out: Vec<Option<T>> = Vec::new();
    let mut i: usize = 0;
    while i < len
        invariant
            i <= len,
            columns@.len() > 0,
            all_of_length(columns@, len as nat),
            forall|row: &Vec<V>|
                row@.len() == columns@.len() ==> #[trigger] row_fn.requires((row,)),
            out@.len() == i,
            forall|k: int|
                0 <= k < i ==> if row_is_present(columns@, k) {
                    exists|row: &Vec<V>|
                        is_row_of(row@, columns@, k) && #[trigger] row_fn.ensures(
                            (row,),
                            out@[k],
                        )
                } else {
                    out@[k] is None
                },
        decreases len - i,
    {
        let mut row: Vec<V> = Vec::new();
        let mut present = true;
        let mut c: usize = 0;
        while c < columns.len() && present
            invariant
                c <= columns@.len(),
                i < len,
                all_of_length(columns@, len as nat),
                present ==> row@.len() == c,
                present ==> forall|k: int|
                    0 <= k < c ==> (#[trigger] columns@[k])@[i as int] == Some(row@[k]),
                !present ==> !row_is_present(columns@, i as int),
            decreases columns@.len() - c, present as int,
        {
            assert(columns@[c as int]@.len() == len);
            match columns[c][i] {
                Some(value) => {
                    row.push(value);
                    c = c + 1;
                },
                None => {
                    present = false;
                },
            }
        }
        let ghost before = out@;
        if present {
            assert(is_row_of(row@, columns@, i as int));
            assert(row_is_present(columns@, i as int));
            let answer = row_fn(&row);
            out.push(answer);
        } else {
            out.push(None);
        }
        assert forall|k: int| 0 <= k < i + 1 implies if row_is_present(columns@, k) {
            exists|row: &Vec<V>|
                is_row_of(row@, columns@, k) && #[trigger] row_fn.ensures((row,), out@[k])
        } else {
            out@[k] is None
        } by {
            if k < i {
                assert(out@[k] == before[k]);
            }
        }
        i = i + 1;
    }
    Ok(out)
}

/// The values of `cells`, each one present.
pub open spec fn all_present(cells: Seq<u64>) -> Seq<Option<u64>> {
    Seq::new(cells.len(), |i: int| Some(cells[i]))
}

/// Whether `row` writes the cells `cells` in the type `dtype`, or is absent
/// where there are none to write.
pub open spec fn writes_cells(row: Option<Series>, cells: Option<Seq<u64>>, dtype: DataType) -> bool {
    match cells {
        Some(cells) => row matches Some(written) && written.writes(all_present(cells), dtype),
        None => row is None,
    }
}

pub(crate) fn present_values(cells: &Vec<u64>) -> (out: Vec<Option<u64>>)
    ensures
        out@ == all_present(cells@),
{
    let mut out: Vec<Option<u64>> = Vec::new();
    let mut i: usize = 0;
    while i < cells.len()
        invariant
            i <= cells@.len(),
            out@.len() == i,
            forall|k: int| 0 <= k < i ==> #[trigger] out@[k] == Some(cells@[k]),
        decreases cells@.len() - i,
    {
        out.push(Some(cells[i]));
        i = i + 1;
    }
    assert(out@ =~= all_present(cells@));
    out
}

/// The cells of an optional list.
pub open spec fn cells_of(list: Option<Vec<u64>>) -> Option<Seq<u64>> {
    match list {
        Some(cells) => Some(cells@),
        None => None,
    }
}

/// Writes each list of cells of `lists` in the type that the column `like`
/// has.
pub(crate) fn write_cell_lists(like: &Series, lists: &Vec<Option<Vec<u64>>>) -> (out: Vec<
    Option<Series>,
>)
    requires
        like.holds_indexes(),
    ensures
        out@.len() == lists@.len(),
        forall|i: int|
            0 <= i < lists@.len() ==> writes_cells(
                #[trigger] out@[i],
                cells_of(lists@[i]),
                like.spec_dtype(),
            ),
{
    let mut rows: Vec<Option<Vec<Option<u64>>>> = Vec::new();
    let mut i: usize = 0;
    while i < lists.len()
        invariant
            i <= lists@.len(),
            rows@.len() == i,
            forall|k: int|
                0 <= k < i ==> match lists@[k] {
                    Some(cells) => (#[trigger] rows@[k]) matches Some(row) && row@ == all_present(
                        cells@,
                    ),
                    None => rows@[k] is None,
                },
        decreases lists@.len() - i,
    {
        let row: Option<Vec<Option<u64>>> = match &lists[i] {
            Some(cells) => Some(present_values(cells)),
            None => None,
        };
        rows.push(row);
        i = i + 1;
    }
    let original = like.dtype();
    let target = match resolve_target_inner_dtype(&original) {
        Ok(dtype) => dtype,
        Err(_) => {
            proof {
                assert(false);
            }
            DataType::UInt64
        },
    };
    match cast_list_u64_to_dtype(&rows, &DataType::UInt64, Some(&target)) {
        Ok(out) => {
            assert forall|i: int| 0 <= i < lists@.len() implies writes_cells(
                #[trigger] out@[i],
                cells_of(lists@[i]),
                like.spec_dtype(),
            ) by {
                assert(lists@[i] is Some <==> rows@[i] is Some);
            }
            out
        },
        Err(_) => {
            proof {
                assert(false);
            }
            Vec::new()
        },
    }
}

/// Writes the indexes `values` in the type that the column `like` has.
pub(crate) fn write_cells_like(like: &Series, values: Vec<Option<u64>>) -> (out: Series)
    requires
        like.holds_indexes(),
    ensures
        out.writes(values@, like.spec_dtype()),
{
    let original = like.dtype();
    match cast_u64_to_dtype(&original, None, values) {
        Ok(out) => out,
        Err(_) => {
            proof {
                assert(false);
            }
            Series::UInt64(Vec::new())
        },
    }
}

} // verus!
