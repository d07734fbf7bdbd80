//! The columns that the batch operations read and write, and the errors that
//! fail a whole call.

use vstd::prelude::*;
use crate::grid::is_cell_index;
use crate::hex::{from_hex, to_hex};

verus! {

/// The element type of a column, as far as the operations tell types apart.
#[derive(Debug, PartialEq, Eq)]
pub enum DataType {
    /// Unsigned 64-bit integers: the bits of an index as they are.
    UInt64,
    /// Signed 64-bit integers: the same bits read as a signed number.
    Int64,
    /// Text: an index in hexadecimal.
    String,
    /// Single-precision numbers.
    Float32,
    /// Double-precision numbers.
    Float64,
    /// A column of nothing but absent values.
    Null,
    /// Lists whose elements have the given type.
    List(Box<DataType>),
    /// Any other type.
    Other,
}

/// A column of optional values.
#[derive(Clone, Debug, PartialEq, Eq)]
pub enum Series {
    /// Unsigned 64-bit integers.
    UInt64(Vec<Option<u64>>),
    /// Signed 64-bit integers.
    Int64(Vec<Option<i64>>),
    /// Text.
    String(Vec<Option<String>>),
    /// A column of another type, of which only the type and the length are
    /// kept.
    Other(DataType, usize),
}

/// Why a call failed as a whole. No row is answered then.
#[derive(Clone, Debug, PartialEq, Eq)]
pub enum EngineError {
    /// Cell indexes cannot be read from a column of this type.
    UnsupportedCellType(DataType),
    /// Cell indexes cannot be written in this type.
    UnsupportedResultType(DataType),
    /// Lists of cell indexes cannot be written with elements of this type.
    UnsupportedListResultType(DataType),
    /// The elements of the column have a type that holds no cell indexes.
    UnsupportedInnerType(DataType),
    /// Coordinates cannot be read from a column of this type.
    UnsupportedCoordinateType(DataType),
    /// The resolution is above 15.
    InvalidResolution(u8),
    /// Columns that are read row by row together differ in length.
    LengthMismatch,
    /// The call was given another number of columns than it reads: first the
    /// number it reads, then the number it was given.
    WrongColumnCount(usize, usize),
}

/// The text of an optional string.
pub open spec fn text_of(value: Option<String>) -> Option<Seq<char>> {
    match value {
        Some(text) => Some(text@),
        None => None,
    }
}

/// The 64 bits of a signed number.
pub open spec fn bits_of_signed(v: i64) -> u64 {
    v as u64
}

/// The signed number with the 64 bits `v`.
pub open spec fn signed_of_bits(v: u64) -> i64 {
    v as i64
}

/// The bits that one value of a column of signed numbers denotes.
pub open spec fn signed_value(value: Option<i64>) -> Option<u64> {
    match value {
        Some(v) => Some(bits_of_signed(v)),
        None => None,
    }
}

/// The bits that one value of a column of text denotes, if any.
pub open spec fn text_value(value: Option<String>) -> Option<u64> {
    match value {
        Some(text) => from_hex(text@),
        None => None,
    }
}

/// `value` where it is the index of a cell, and nothing otherwise.
pub open spec fn as_cell(value: Option<u64>) -> Option<u64> {
    match value {
        Some(bits) => if is_cell_index(bits) {
            Some(bits)
        } else {
            None
        },
        None => None,
    }
}

impl Series {
    /// The element type of the column.
    pub open spec fn spec_dtype(self) -> DataType {
        match self {
            Series::UInt64(_) => DataType::UInt64,
            Series::Int64(_) => DataType::Int64,
            Series::String(_) => DataType::String,
            Series::Other(dtype, _) => dtype,
        }
    }

    /// The number of rows.
    pub open spec fn spec_len(self) -> nat {
        match self {
            Series::UInt64(values) => values@.len(),
            Series::Int64(values) => values@.len(),
            Series::String(values) => values@.len(),
            Series::Other(_, len) => len as nat,
        }
    }

    /// Whether row `i` holds a value.
    pub open spec fn is_present(self, i: int) -> bool {
        match self {
            Series::UInt64(values) => values@[i] is Some,
            Series::Int64(values) => values@[i] is Some,
            Series::String(values) => values@[i] is Some,
            Series::Other(_, _) => false,
        }
    }

    /// Whether cell indexes can be read from the column.
    pub open spec fn holds_indexes(self) -> bool {
        !(self is Other)
    }

    /// The 64 bits that each row denotes, whether they are a cell or not:
    /// an integer as it is, a signed one by its bits, text by its hexadecimal
    /// value. A row that is absent, or text that is no hexadecimal number,
    /// denotes nothing.
    pub open spec fn values(self) -> Seq<Option<u64>> {
        match self {
            Series::UInt64(values) => values@,
            Series::Int64(values) => Seq::new(values@.len(), |i: int| signed_value(values@[i])),
            Series::String(values) => Seq::new(values@.len(), |i: int| text_value(values@[i])),
            Series::Other(_, _) => Seq::empty(),
        }
    }

    /// The cell of each row: what the row denotes, where that is the index of
    /// a cell.
    pub open spec fn cells(self) -> Seq<Option<u64>> {
        Seq::new(self.values().len(), |i: int| as_cell(self.values()[i]))
    }

    /// Whether the column writes `values` in the type `dtype`: an integer as
    /// it is, a signed one with the same bits, text in lowercase hexadecimal
    /// without padding; an absent value stays absent.
    pub open spec fn writes(self, values: Seq<Option<u64>>, dtype: DataType) -> bool {
        match self {
            Series::UInt64(out) => dtype == DataType::UInt64 && out@ == values,
            Series::Int64(out) => dtype == DataType::Int64 && out@.len() == values.len()
                && forall|i: int|
                0 <= i < values.len() ==> #[trigger] out@[i] == match values[i] {
                    Some(v) => Some(signed_of_bits(v)),
                    None => None,
                },
            Series::String(out) => dtype == DataType::String && out@.len() == values.len()
                && forall|i: int|
                0 <= i < values.len() ==> text_of(#[trigger] out@[i]) == match values[i] {
                    Some(v) => Some(to_hex(v as nat)),
                    None => None,
                },
            Series::Other(_, _) => false,
        }
    }

    /// The element type of the column.
    pub fn dtype(&self) -> (r: DataType)
        ensures
            r == self.spec_dtype(),
    {
        match self {
            Series::UInt64(_) => DataType::UInt64,
            Series::Int64(_) => DataType::Int64,
            Series::String(_) => DataType::String,
            Series::Other(dtype, _) => dtype.duplicate(),
        }
    }

    /// The number of rows.
    pub fn len(&self) -> (r: usize)
        ensures
            r == self.spec_len(),
    {
        match self {
            Series::UInt64(values) => values.len(),
            Series::Int64(values) => values.len(),
            Series::String(values) => values.len(),
            Series::Other(_, len) => *len,
        }
    }
}

/// Whether `e` is the error of a call that was given `series` to read cell
/// indexes from: the column has a type that holds none, and `e` names it.
pub open spec fn refuses_cells(series: Series, e: EngineError) -> bool {
    !series.holds_indexes() && e == EngineError::UnsupportedCellType(series.spec_dtype())
}

/// A column that holds indexes denotes something, or nothing, in each of its
/// rows.
pub proof fn lemma_one_value_per_row(series: Series)
    requires
        series.holds_indexes(),
    ensures
        series.values().len() == series.spec_len(),
        series.cells().len() == series.spec_len(),
{
}

impl Clone for DataType {
    fn clone(&self) -> (r: DataType)
        ensures
            r == *self,
    {
        self.duplicate()
    }
}

impl DataType {
    /// A copy of the type.
    pub fn duplicate(&self) -> (r: DataType)
        ensures
            r == *self,
        decreases self,
    {
        match self {
            DataType::UInt64 => DataType::UInt64,
            DataType::Int64 => DataType::Int64,
            DataType::String => DataType::String,
            DataType::Float32 => DataType::Float32,
            DataType::Float64 => DataType::Float64,
            DataType::Null => DataType::Null,
            DataType::List(inner) => DataType::List(Box::new(inner.duplicate())),
            DataType::Other => DataType::Other,
        }
    }
}

} // verus!
