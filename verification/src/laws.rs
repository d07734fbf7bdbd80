//! What holds of the operations taken together.

use vstd::prelude::*;
use vstd::arithmetic::power::pow;
use crate::grid::{
    cell_is_pentagon, cell_resolution, descendant_count, is_cell_index, MAX_RESOLUTION,
};
use crate::hex::lemma_hex_round_trip;
use crate::hierarchy::{
    center_child_row, child_at_row, child_pos_row, children_row, children_size_row, compact_row,
    parent_row, uncompact_row,
};
use crate::inspection::{class_iii_row, pentagon_row, resolution_row, validity_row};
use crate::traversal::{disk_row, distance_row, local_cell_row, local_ij_row, path_row, ring_row};
use crate::metrics::cell_count;
use crate::types::{bits_of_signed, signed_of_bits, DataType, Series};
use crate::utils::all_present;

verus! {

/// The bits of a signed number, read as a signed number again, are the number
/// that was written, whatever the sign.
pub proof fn lemma_signed_round_trip(v: u64)
    ensures
        bits_of_signed(signed_of_bits(v)) == v,
{
    assert((v as i64) as u64 == v) by (bit_vector);
}

/// A column that writes values in one of the three encodings denotes, read
/// back, the values that were written.
pub proof fn lemma_written_values_read_back(out: Series, values: Seq<Option<u64>>, dtype: DataType)
    requires
        out.writes(values, dtype),
    ensures
        out.holds_indexes(),
        out.spec_dtype() == dtype,
        out.values() == values,
{
    match out {
        Series::UInt64(written) => {},
        Series::Int64(written) => {
            assert forall|i: int| 0 <= i < values.len() implies out.values()[i] == values[i] by {
                if let Some(v) = values[i] {
                    lemma_signed_round_trip(v);
                }
            }
            assert(out.values() =~= values);
        },
        Series::String(written) => {
            assert forall|i: int| 0 <= i < values.len() implies out.values()[i] == values[i] by {
                if let Some(v) = values[i] {
                    lemma_hex_round_trip(v);
                }
            }
            assert(out.values() =~= values);
        },
        Series::Other(_, _) => {},
    }
}

/// A column that writes cells denotes, read back as cells, the cells that
/// were written.
pub proof fn lemma_written_cells_read_back(out: Series, cells: Seq<u64>, dtype: DataType)
    requires
        out.writes(all_present(cells), dtype),
        forall|i: int| 0 <= i < cells.len() ==> is_cell_index(#[trigger] cells[i]),
    ensures
        out.cells() == all_present(cells),
{
    lemma_written_values_read_back(out, all_present(cells), dtype);
    assert(out.cells() =~= all_present(cells));
}

/// A row has a cell exactly when it holds a value, the value denotes 64 bits,
/// and the bits are the index of a cell.
pub proof fn lemma_rows_with_a_cell(series: Series, i: int)
    requires
        series.holds_indexes(),
        0 <= i < series.spec_len(),
    ensures
        series.values()[i] is Some ==> series.is_present(i),
        series.cells()[i] is Some <==> (series.values()[i] matches Some(bits) && is_cell_index(
            bits,
        )),
        series.cells()[i] matches Some(bits) ==> series.values()[i] == Some(bits),
{
}

/// A row without a cell is answered with nothing, by every operation and
/// whatever the other rows hold: an operation that reads two columns answers
/// with nothing as soon as one of the two has no cell in the row.
pub proof fn lemma_absent_rows_stay_absent(
    other: Option<u64>,
    k: u32,
    resolution: Option<u8>,
    level: u8,
    position: Option<u64>,
    i: Option<i32>,
    j: Option<i32>,
)
    ensures
        resolution_row(None) is None,
        validity_row(false, None) is None,
        pentagon_row(None) is None,
        class_iii_row(None) is None,
        parent_row(None, resolution) is None,
        center_child_row(None, resolution) is None,
        children_size_row(None, resolution) is None,
        children_row(None, resolution) is None,
        child_pos_row(None, level) is None,
        child_at_row(None, position, level) is None,
        child_at_row(other, None, level) is None,
        compact_row(None) is None,
        uncompact_row(None, level) is None,
        distance_row(None, other) is None,
        distance_row(other, None) is None,
        ring_row(None, k) is None,
        disk_row(None, k) is None,
        path_row(None, other) is None,
        path_row(other, None) is None,
        local_ij_row(None, other) is None,
        local_ij_row(other, None) is None,
        local_cell_row(None, i, j) is None,
        local_cell_row(other, None, j) is None,
        local_cell_row(other, i, None) is None,
{
}

/// A row with a cell is answered by every operation that is defined on every
/// cell, and by the operations of the hierarchy exactly where the resolution
/// asked for lies on the right side of the cell's own.
pub proof fn lemma_rows_with_a_cell_are_answered(bits: u64, k: u32, level: u8, position: u64)
    requires
        level <= MAX_RESOLUTION,
    ensures
        resolution_row(Some(bits)) is Some,
        validity_row(true, Some(bits)) is Some,
        pentagon_row(Some(bits)) is Some,
        class_iii_row(Some(bits)) is Some,
        ring_row(Some(bits), k) is Some,
        disk_row(Some(bits), k) is Some,
        children_size_row(Some(bits), Some(level)) is Some,
        children_row(Some(bits), Some(level)) is Some,
        parent_row(Some(bits), Some(level)) is Some <==> level <= cell_resolution(bits),
        center_child_row(Some(bits), Some(level)) is Some <==> cell_resolution(bits) <= level,
        child_pos_row(Some(bits), level) is Some <==> level <= cell_resolution(bits),
        child_at_row(Some(bits), Some(position), level) is Some <==> (cell_resolution(bits)
            <= level && position < descendant_count(
            cell_resolution(bits),
            cell_is_pentagon(bits),
            level,
        )),
{
}

/// A power of seven is one more than a multiple of six.
pub proof fn lemma_power_of_seven_mod_six(n: nat)
    ensures
        pow(7, n) >= 1,
        pow(7, n) % 6 == 1,
    decreases n,
{
    reveal_with_fuel(pow, 2);
    if n > 0 {
        lemma_power_of_seven_mod_six((n - 1) as nat);
        let below = pow(7, (n - 1) as nat);
        assert(pow(7, n) == 7 * below);
        assert((7 * below) % 6 == below % 6);
    }
}

/// The grid has 122 cells at resolution 0, and from one resolution to the
/// next every cell but the twelve pentagons is split in seven, and each
/// pentagon in six.
pub proof fn lemma_cell_count_by_level(resolution: nat)
    ensures
        cell_count(0) == 122,
        cell_count(resolution + 1) == 7 * (cell_count(resolution) - 12) + 6 * 12,
{
    reveal_with_fuel(pow, 2);
    assert(pow(7, resolution + 1) == 7 * pow(7, resolution));
}

/// The cells of a resolution are the descendants there of the base cells: of
/// the 110 hexagons and the 12 pentagons of resolution 0.
pub proof fn lemma_cells_descend_from_base_cells(resolution: u8)
    requires
        resolution <= MAX_RESOLUTION,
    ensures
        110 * descendant_count(0, false, resolution) + 12 * descendant_count(0, true, resolution)
            == cell_count(resolution as nat),
{
    lemma_power_of_seven_mod_six(resolution as nat);
    let hexagons = pow(7, resolution as nat);
    let sixth = (hexagons - 1) / 6;
    assert(hexagons - 1 == 6 * sixth);
    assert(5 * (hexagons - 1) / 6 == 5 * sixth) by {
        assert(5 * (hexagons - 1) == 6 * (5 * sixth));
    }
}

} // verus!
