//! From coordinates to cells, and from cells to what lies at them.
//!
//! A coordinate is a number that this crate does not compute with. The
//! operations here decide everything around it: which columns are read, which
//! rows are answered, and in what form. The step from a pair of coordinates
//! to a cell, and from a cell to a value of any other kind, is a function
//! that the caller hands in.

use vstd::prelude::*;
use crate::cell::Cell;
use crate::grid::MAX_RESOLUTION;
use crate::hex::{format_hex, to_hex};
use crate::types::{lemma_one_value_per_row, refuses_cells, text_of, DataType, EngineError, Series};
use crate::utils::{indexes_of, parse_cell_indices};

verus! {

/// What is to be done with a column before coordinates are read from it.
#[derive(Clone, Copy, Debug, PartialEq, Eq, Structural)]
pub enum CoordinateCast {
    /// The column is read as it is.
    Keep,
    /// The column holds single-precision numbers and is widened first.
    Widen,
}

/// What is to be done with a column of the type `dtype` before coordinates
/// are read from it, if they can be read from it at all.
pub open spec fn coordinate_plan(dtype: DataType) -> Option<CoordinateCast> {
    match dtype {
        DataType::Float64 => Some(CoordinateCast::Keep),
        DataType::Null => Some(CoordinateCast::Keep),
        DataType::Float32 => Some(CoordinateCast::Widen),
        _ => None,
    }
}

/// Decides how a column of latitudes or longitudes is read.
///
/// Double-precision numbers, and a column of nothing but absent values, are
/// read as they are; single-precision numbers are widened. A column of any
/// other type fails the call.
pub fn coordinate_cast(dtype: &DataType) -> (r: Result<CoordinateCast, EngineError>)
    ensures
        match r {
            Ok(cast) => coordinate_plan(*dtype) == Some(cast),
            Err(e) => coordinate_plan(*dtype) is None && e
                == EngineError::UnsupportedCoordinateType(*dtype),
        },
{
    match dtype {
        DataType::Float64 => Ok(CoordinateCast::Keep),
        DataType::Null => Ok(CoordinateCast::Keep),
        DataType::Float32 => Ok(CoordinateCast::Widen),
        other => Err(EngineError::UnsupportedCoordinateType(other.duplicate())),
    }
}

/// Whether `e` is the error of a call that reads coordinates from columns of
/// the types `lat` and `lng`, of `lat_len` and `lng_len` rows, at
/// `resolution`: the first of these is named that holds: the latitudes have a
/// type that holds no coordinates, the longitudes have, the resolution is
/// above 15, the lengths differ.
pub open spec fn refuses_coordinates(
    lat: DataType,
    lng: DataType,
    resolution: u8,
    lat_len: nat,
    lng_len: nat,
    e: EngineError,
) -> bool {
    if coordinate_plan(lat) is None {
        e == EngineError::UnsupportedCoordinateType(lat)
    } else if coordinate_plan(lng) is None {
        e == EngineError::UnsupportedCoordinateType(lng)
    } else if resolution > MAX_RESOLUTION {
        e == EngineError::InvalidResolution(resolution)
    } else {
        lat_len != lng_len && e == EngineError::LengthMismatch
    }
}

/// Whether coordinates can be read from columns of the types `lat` and `lng`,
/// of `lat_len` and `lng_len` rows, at `resolution`.
pub open spec fn reads_coordinates(
    lat: DataType,
    lng: DataType,
    resolution: u8,
    lat_len: nat,
    lng_len: nat,
) -> bool {
    coordinate_plan(lat) is Some && coordinate_plan(lng) is Some && resolution <= MAX_RESOLUTION
        && lat_len == lng_len
}

/// For each row, the cell at `resolution` that holds the point whose
/// latitude and longitude the row gives, as `locate` finds it.
///
/// A row is absent where either coordinate is, and where `locate` finds no
/// cell for the pair; `locate` is asked about no other row. The columns have
/// the types `lat_dtype` and `lng_dtype`; single-precision values are widened
/// by the caller. The call fails on a column of another type, on a resolution
/// above 15 and on columns of different lengths, in that order.
pub fn latlng_to_cell<V: Copy, F: Fn(V, V, u8) -> Option<u64>>(
    lat_dtype: &DataType,
    lat_values: &Vec<Option<V>>,
    lng_dtype: &DataType,
    lng_values: &Vec<Option<V>>,
    resolution: u8,
    locate: F,
) -> (r: Result<Vec<Option<u64>>, EngineError>)
    requires
        forall|lat: V, lng: V| #[trigger] locate.requires((lat, lng, resolution)),
    ensures
        match r {
            Ok(cells) => reads_coordinates(
                *lat_dtype,
                *lng_dtype,
                resolution,
                lat_values@.len(),
                lng_values@.len(),
            ) && cells@.len() == lat_values@.len() && forall|i: int|
                0 <= i < cells@.len() ==> match (lat_values@[i], lng_values@[i]) {
                    (Some(lat), Some(lng)) => locate.ensures(
                        (lat, lng, resolution),
                        #[trigger] cells@[i],
                    ),
                    _ => cells@[i] is None,
                },
            Err(e) => refuses_coordinates(
                *lat_dtype,
                *lng_dtype,
                resolution,
                lat_values@.len(),
                lng_values@.len(),
                e,
            ),
        },
{
    match coordinate_cast(lat_dtype) {
        Ok(_) => {},
        Err(e) => {
            return Err(e);
        },
    }
    match coordinate_cast(lng_dtype) {
        Ok(_) => {},
        Err(e) => {
            return Err(e);
        },
    }
    if resolution > MAX_RESOLUTION {
        return Err(EngineError::InvalidResolution(resolution));
    }
    if lat_values.len() != lng_values.len() {
        return Err(EngineError::LengthMismatch);
    }
    let mut cells: Vec<Option<u64>> = Vec::new();
    let mut i: usize = 0;
    while i < lat_values.len()
        invariant
            i <= lat_values@.len(),
            lat_values@.len() == lng_values@.len(),
            forall|lat: V, lng: V| #[trigger] locate.requires((lat, lng, resolution)),
            cells@.len() == i,
            forall|k: int|
                0 <= k < i ==> match (lat_values@[k], lng_values@[k]) {
                    (Some(lat), Some(lng)) => locate.ensures(
                        (lat, lng, resolution),
                        #[trigger] cells@[k],
                    ),
                    _ => cells@[k] is None,
                },
        decreases lat_values@.len() - i,
    {
        let row: Option<u64> = match (lat_values[i], lng_values[i]) {
            (Some(lat), Some(lng)) => locate(lat, lng, resolution),
            _ => None,
        };
        cells.push(row);
        i = i + 1;
    }
    Ok(cells)
}

/// The same as [`latlng_to_cell`], each cell written in lowercase hexadecimal.
pub fn latlng_to_cell_string<V: Copy, F: Fn(V, V, u8) -> Option<u64>>(
    lat_dtype: &DataType,
    lat_values: &Vec<Option<V>>,
    lng_dtype: &DataType,
    lng_values: &Vec<Option<V>>,
    resolution: u8,
    locate: F,
) -> (r: Result<Vec<Option<String>>, EngineError>)
    requires
        forall|lat: V, lng: V| #[trigger] locate.requires((lat, lng, resolution)),
    ensures
        match r {
            Ok(texts) => reads_coordinates(
                *lat_dtype,
                *lng_dtype,
                resolution,
                lat_values@.len(),
                lng_values@.len(),
            ) && texts@.len() == lat_values@.len() && forall|i: int|
                #![trigger texts@[i]]
                0 <= i < texts@.len() ==> match (lat_values@[i], lng_values@[i]) {
                    (Some(lat), Some(lng)) => exists|cell: Option<u64>|
                        #[trigger] locate.ensures((lat, lng, resolution), cell) && text_of(
                            texts@[i],
                        ) == match cell {
                            Some(bits) => Some(to_hex(bits as nat)),
                            None => None,
                        },
                    _ => texts@[i] is None,
                },
            Err(e) => refuses_coordinates(
                *lat_dtype,
                *lng_dtype,
                resolution,
                lat_values@.len(),
                lng_values@.len(),
                e,
            ),
        },
{
    let cells = match latlng_to_cell(
        lat_dtype,
        lat_values,
        lng_dtype,
        lng_values,
        resolution,
        locate,
    ) {
        Ok(cells) => cells,
        Err(e) => {
            return Err(e);
        },
    };
    let mut texts: Vec<Option<String>> = Vec::new();
    let mut i: usize = 0;
    while i < cells.len()
        invariant
            i <= cells@.len(),
            texts@.len() == i,
            forall|k: int|
                0 <= k < i ==> text_of(#[trigger] texts@[k]) == match cells@[k] {
                    Some(bits) => Some(to_hex(bits as nat)),
                    None => None,
                },
        decreases cells@.len() - i,
    {
        let row: Option<String> = match cells[i] {
            Some(bits) => Some(format_hex(bits)),
            None => None,
        };
        texts.push(row);
        i = i + 1;
    }
    assert forall|i: int|
        #![trigger texts@[i]]
        0 <= i < texts@.len() implies match (lat_values@[i], lng_values@[i]) {
        (Some(lat), Some(lng)) => exists|cell: Option<u64>|
            #[trigger] locate.ensures((lat, lng, resolution), cell) && text_of(texts@[i])
                == match cell {
                Some(bits) => Some(to_hex(bits as nat)),
                None => None,
            },
        _ => texts@[i] is None,
    } by {
        let cell = cells@[i];
        match (lat_values@[i], lng_values@[i]) {
            (Some(lat), Some(lng)) => {
                assert(locate.ensures((lat, lng, resolution), cell));
            },
            _ => {},
        }
    }
    Ok(texts)
}

/// For each row, what `value_of` makes of its cell.
///
/// A row is absent exactly where it has no cell; `value_of` is asked about
/// each cell once, in the order of the rows.
pub fn map_cells<T, F: Fn(Cell) -> T>(cell_series: &Series, value_of: F) -> (r: Result<
    Vec<Option<T>>,
    EngineError,
>)
    requires
        forall|cell: Cell| #[trigger] value_of.requires((cell,)),
    ensures
        match r {
            Ok(out) => cell_series.holds_indexes() && out@.len() == cell_series.spec_len()
                && forall|i: int|
                0 <= i < out@.len() ==> match #[trigger] out@[i] {
                    Some(value) => exists|cell: Cell|
                        cell_series.cells()[i] == Some(cell@) && #[trigger] value_of.ensures(
                            (cell,),
                            value,
                        ),
                    None => cell_series.cells()[i] is None,
                },
            Err(e) => refuses_cells(*cell_series, e),
        },
{
    let cells = match parse_cell_indices(cell_series) {
        Ok(cells) => cells,
        Err(e) => {
            return Err(e);
        },
    };
    proof {
        lemma_one_value_per_row(*cell_series);
        assert(indexes_of(cells@).len() == cells@.len());
    }
    let mut out: Vec<Option<T>> = Vec::new();
    let mut i: usize = 0;
    while i < cells.len()
        invariant
            i <= cells@.len(),
            forall|cell: Cell| #[trigger] value_of.requires((cell,)),
            out@.len() == i,
            forall|k: int|
                0 <= k < i ==> match #[trigger] out@[k] {
                    Some(value) => exists|cell: Cell|
                        indexes_of(cells@)[k] == Some(cell@) && #[trigger] value_of.ensures(
                            (cell,),
                            value,
                        ),
                    None => indexes_of(cells@)[k] is None,
                },
        decreases cells@.len() - i,
    {
        let ghost before = out@;
        let ghost mut asked: Option<Cell> = None;
        let row: Option<T> = match cells[i] {
            Some(cell) => {
                let value = value_of(cell);
                proof {
                    asked = Some(cell);
                }
                Some(value)
            },
            None => None,
        };
        assert(match row {
            Some(value) => asked matches Some(cell) && indexes_of(cells@)[i as int] == Some(cell@)
                && value_of.ensures((cell,), value),
            None => indexes_of(cells@)[i as int] is None,
        });
        out.push(row);
        assert forall|k: int| 0 <= k < i + 1 implies match #[trigger] out@[k] {
            Some(value) => exists|cell: Cell|
                indexes_of(cells@)[k] == Some(cell@) && #[trigger] value_of.ensures(
                    (cell,),
                    value,
                ),
            None => indexes_of(cells@)[k] is None,
        } by {
            if k < i {
                assert(out@[k] == before[k]);
            } else {
                assert(out@[k] == row);
            }
        }
        i = i + 1;
    }
    Ok(out)
}

} // verus!
