//! The grid itself: what a cell index is, and the single-cell operations of
//! the `h3o` crate that the batch operations are built on.
//!
//! Nothing in this file is proved about `h3o`. Each operation of it is called
//! through one function whose contract is taken on trust; where the result
//! cannot be stated in a few lines it is given a name, and the contract says
//! only that the call returns what the name denotes. A function that takes a
//! cell is given the index of one, and one that takes a resolution is given
//! one from 0 to 15: the callers prove as much before they call.

use vstd::prelude::*;

verus! {

/// The finest resolution of the grid.
pub const MAX_RESOLUTION: u8 = 15;

/// Whether the 64 bits `bits` are the index of a cell, as
/// `h3o::CellIndex::try_from` decides it.
pub uninterp spec fn is_cell_index(bits: u64) -> bool;

/// Whether the cell `bits` is one of the twelve pentagons of its resolution
/// (`h3o::CellIndex::is_pentagon`).
pub uninterp spec fn cell_is_pentagon(bits: u64) -> bool;

/// The icosahedron faces that the cell `bits` intersects, in ascending order
/// (`h3o::CellIndex::icosahedron_faces`).
pub uninterp spec fn cell_faces(bits: u64) -> Seq<u8>;

/// The ancestor of the cell `bits` at the coarser or equal resolution
/// `resolution` (`h3o::CellIndex::parent`).
pub uninterp spec fn cell_parent(bits: u64, resolution: u8) -> u64;

/// The center descendant of the cell `bits` at the finer or equal resolution
/// `resolution` (`h3o::CellIndex::center_child`).
pub uninterp spec fn cell_center_child(bits: u64, resolution: u8) -> u64;

/// The descendants of the cell `bits` at `resolution`, in the order in which
/// `h3o::CellIndex::children` yields them.
pub uninterp spec fn cell_children(bits: u64, resolution: u8) -> Seq<u64>;

/// The rank of the cell `bits` among the descendants, at its own resolution,
/// of its ancestor at `resolution` (`h3o::CellIndex::child_position`).
pub uninterp spec fn cell_child_position(bits: u64, resolution: u8) -> u64;

/// The descendant of the cell `bits` at `resolution` whose rank is `position`
/// (`h3o::CellIndex::child_at`).
pub uninterp spec fn cell_child_at(bits: u64, position: u64, resolution: u8) -> u64;

/// The compacted form of a set of distinct cells of one resolution, as
/// `h3o::CellIndex::compact` leaves it.
pub uninterp spec fn compacted_cells(cells: Seq<u64>) -> Seq<u64>;

/// The number of grid steps from `origin` to `destination`, where
/// `h3o::CellIndex::grid_distance` finds one.
pub uninterp spec fn cell_distance(origin: u64, destination: u64) -> Option<i32>;

/// The cells exactly `k` steps away from the cell `bits`
/// (`h3o::CellIndex::grid_ring`).
pub uninterp spec fn ring_cells(bits: u64, k: u32) -> Seq<u64>;

/// The cells at most `k` steps away from the cell `bits`
/// (`h3o::CellIndex::grid_disk`).
pub uninterp spec fn disk_cells(bits: u64, k: u32) -> Seq<u64>;

/// The line of cells from `origin` to `destination`, both included, where
/// `h3o::CellIndex::grid_path_cells` finds every cell of it.
pub uninterp spec fn path_cells(origin: u64, destination: u64) -> Option<Seq<u64>>;

/// The coordinates `(i, j)` of the cell `bits` in the local frame of `origin`,
/// where `h3o::CellIndex::to_local_ij` defines them.
pub uninterp spec fn cell_local_ij(bits: u64, origin: u64) -> Option<(i32, i32)>;

/// The cell at the coordinates `(i, j)` of the local frame of `origin`, where
/// there is one (`h3o::CellIndex::try_from` on an `h3o::LocalIJ`).
pub uninterp spec fn cell_at_local_ij(origin: u64, i: i32, j: i32) -> Option<u64>;

/// The twelve pentagons of `resolution`, in the order in which
/// `h3o::Resolution::pentagons` yields them.
pub uninterp spec fn pentagon_cells(resolution: u8) -> Seq<u64>;

/// The resolution of the index `bits`: the four bits from bit 52 upwards.
pub open spec fn cell_resolution(bits: u64) -> u8 {
    ((bits >> 52) & 0xf) as u8
}

/// The number of base cells: the cells of resolution 0.
pub const BASE_CELL_COUNT: u64 = 122;

/// The index of base cell number `base`: mode 1, resolution 0, the base cell
/// from bit 45 upwards, and every digit unused.
pub open spec fn base_cell_index(base: u64) -> u64 {
    0x0800_1fff_ffff_ffff | (base << 45)
}

/// Every cell of `cells` is a cell index.
pub open spec fn all_cell_indexes(cells: Seq<u64>) -> bool {
    forall|i: int| 0 <= i < cells.len() ==> is_cell_index(#[trigger] cells[i])
}

/// Every cell of `cells` has the same resolution.
pub open spec fn one_resolution(cells: Seq<u64>) -> bool {
    forall|i: int, j: int|
        0 <= i < cells.len() && 0 <= j < cells.len() ==> cell_resolution(#[trigger] cells[i])
            == cell_resolution(#[trigger] cells[j])
}

/// No cell occurs twice in `cells`.
pub open spec fn distinct_cells(cells: Seq<u64>) -> bool {
    forall|i: int, j: int|
        0 <= i < j < cells.len() ==> #[trigger] cells[i] != #[trigger] cells[j]
}

/// How many descendants a cell of resolution `of` has at `resolution`: none
/// at a coarser one, itself at its own, and below that seven per hexagon and
/// level, a pentagon giving five hexagons and one pentagon per level.
pub open spec fn descendant_count(of: u8, pentagon: bool, resolution: u8) -> nat {
    if resolution < of {
        0
    } else if pentagon {
        (1 + 5 * (vstd::arithmetic::power::pow(7, (resolution - of) as nat) - 1) / 6) as nat
    } else {
        vstd::arithmetic::power::pow(7, (resolution - of) as nat) as nat
    }
}

/// Whether the cell `bits` has a descendant of rank `position` at
/// `resolution`.
pub open spec fn has_child_at(bits: u64, position: u64, resolution: u8) -> bool {
    resolution >= cell_resolution(bits) && position < descendant_count(
        cell_resolution(bits),
        cell_is_pentagon(bits),
        resolution,
    )
}

/// Calls `h3o::CellIndex::try_from` on `bits` and answers whether it accepted
/// them. Taken on trust: that the answer depends on the bits alone, which is
/// what gives `is_cell_index` its meaning.
#[verifier::external_body]
pub(crate) fn index_is_cell(bits: u64) -> (r: bool)
    ensures
        r == is_cell_index(bits),
{
    h3o::CellIndex::try_from(bits).is_ok()
}

/// Calls `h3o::CellIndex::is_pentagon`. Taken on trust: that the answer
/// depends on the cell alone; it is what `cell_is_pentagon` denotes.
#[verifier::external_body]
pub(crate) fn is_pentagon(bits: u64) -> (r: bool)
    requires
        is_cell_index(bits),
    ensures
        r == cell_is_pentagon(bits),
{
    h3o::CellIndex::try_from(bits).unwrap().is_pentagon()
}

/// Calls `h3o::CellIndex::icosahedron_faces` and hands out the number of each
/// face of the set, which `h3o::FaceSet::iter` walks from face 0 upwards.
/// Taken on trust: that the faces depend on the cell alone; they are what
/// `cell_faces` denotes.
#[verifier::external_body]
pub(crate) fn faces(bits: u64) -> (r: Vec<u8>)
    requires
        is_cell_index(bits),
    ensures
        r@ == cell_faces(bits),
{
    let cell = h3o::CellIndex::try_from(bits).unwrap();
    cell.icosahedron_faces().iter().map(u8::from).collect()
}

/// Calls `h3o::CellIndex::parent`. Taken on trust: that it answers exactly
/// when `resolution` is not finer than the cell's own, which for a cell is
/// the value of bits 52 to 55, and that the answer depends on the arguments
/// alone; it is what `cell_parent` denotes.
#[verifier::external_body]
pub(crate) fn parent(bits: u64, resolution: u8) -> (r: Option<u64>)
    requires
        is_cell_index(bits),
        resolution <= MAX_RESOLUTION,
    ensures
        r == if resolution <= cell_resolution(bits) {
            Some(cell_parent(bits, resolution))
        } else {
            None
        },
{
    let cell = h3o::CellIndex::try_from(bits).unwrap();
    let resolution = h3o::Resolution::try_from(resolution).unwrap();
    cell.parent(resolution).map(u64::from)
}

/// Calls `h3o::CellIndex::center_child`. Taken on trust: that it answers
/// exactly when `resolution` is not coarser than the cell's own, and that the
/// answer depends on the arguments alone; it is what `cell_center_child`
/// denotes.
#[verifier::external_body]
pub(crate) fn center_child(bits: u64, resolution: u8) -> (r: Option<u64>)
    requires
        is_cell_index(bits),
        resolution <= MAX_RESOLUTION,
    ensures
        r == if resolution >= cell_resolution(bits) {
            Some(cell_center_child(bits, resolution))
        } else {
            None
        },
{
    let cell = h3o::CellIndex::try_from(bits).unwrap();
    let resolution = h3o::Resolution::try_from(resolution).unwrap();
    cell.center_child(resolution).map(u64::from)
}

/// Calls `h3o::CellIndex::children` and collects what it yields, in its
/// order. Taken on trust: that the cells and their order depend on the
/// arguments alone; they are what `cell_children` denotes.
#[verifier::external_body]
pub(crate) fn children(bits: u64, resolution: u8) -> (r: Vec<u64>)
    requires
        is_cell_index(bits),
        resolution <= MAX_RESOLUTION,
    ensures
        r@ == cell_children(bits, resolution),
{
    let cell = h3o::CellIndex::try_from(bits).unwrap();
    let resolution = h3o::Resolution::try_from(resolution).unwrap();
    cell.children(resolution).map(u64::from).collect()
}

/// Calls `h3o::CellIndex::child_position`. Taken on trust: that it answers
/// exactly when `resolution` is not finer than the cell's own, and that the
/// answer depends on the arguments alone; it is what `cell_child_position`
/// denotes.
#[verifier::external_body]
pub(crate) fn child_position(bits: u64, resolution: u8) -> (r: Option<u64>)
    requires
        is_cell_index(bits),
        resolution <= MAX_RESOLUTION,
    ensures
        r == if resolution <= cell_resolution(bits) {
            Some(cell_child_position(bits, resolution))
        } else {
            None
        },
{
    let cell = h3o::CellIndex::try_from(bits).unwrap();
    let resolution = h3o::Resolution::try_from(resolution).unwrap();
    cell.child_position(resolution)
}

/// Calls `h3o::CellIndex::child_at`. Taken on trust: that it answers exactly
/// when `resolution` is not coarser than the cell's own and `position` is
/// below the number of descendants there, that this number is what
/// `descendant_count` computes, and that the answer depends on the arguments
/// alone; it is what `cell_child_at` denotes.
#[verifier::external_body]
pub(crate) fn child_at(bits: u64, position: u64, resolution: u8) -> (r: Option<u64>)
    requires
        is_cell_index(bits),
        resolution <= MAX_RESOLUTION,
    ensures
        r == if has_child_at(bits, position, resolution) {
            Some(cell_child_at(bits, position, resolution))
        } else {
            None
        },
{
    let cell = h3o::CellIndex::try_from(bits).unwrap();
    let resolution = h3o::Resolution::try_from(resolution).unwrap();
    cell.child_at(position, resolution).map(u64::from)
}

/// Calls `h3o::CellIndex::compact` on a copy of `cells`. Taken on trust: that
/// it refuses exactly the inputs that hold cells of more than one resolution
/// or a cell twice, and that what it leaves depends on the input alone; it is
/// what `compacted_cells` denotes.
#[verifier::external_body]
pub(crate) fn compact(cells: &Vec<u64>) -> (r: Option<Vec<u64>>)
    requires
        all_cell_indexes(cells@),
    ensures
        r.is_some() == (one_resolution(cells@) && distinct_cells(cells@)),
        r matches Some(out) ==> out@ == compacted_cells(cells@),
{
    let mut set: Vec<h3o::CellIndex> =
        cells.iter().map(|bits| h3o::CellIndex::try_from(*bits).unwrap()).collect();
    h3o::CellIndex::compact(&mut set).ok()?;
    Some(set.into_iter().map(u64::from).collect())
}

/// Calls `h3o::CellIndex::grid_distance`; an error of it is `None`. Taken on
/// trust: that the outcome depends on the two cells alone; it is what
/// `cell_distance` denotes.
#[verifier::external_body]
pub(crate) fn distance(origin: u64, destination: u64) -> (r: Option<i32>)
    requires
        is_cell_index(origin),
        is_cell_index(destination),
    ensures
        r == cell_distance(origin, destination),
{
    let origin = h3o::CellIndex::try_from(origin).unwrap();
    let destination = h3o::CellIndex::try_from(destination).unwrap();
    origin.grid_distance(destination).ok()
}

/// Calls `h3o::CellIndex::grid_ring`. Taken on trust: that for `k == 0` it
/// yields the cell alone, and that the cells and their order depend on the
/// arguments alone; they are what `ring_cells` denotes.
#[verifier::external_body]
pub(crate) fn ring(bits: u64, k: u32) -> (r: Vec<u64>)
    requires
        is_cell_index(bits),
    ensures
        r@ == ring_cells(bits, k),
        k == 0 ==> r@ == seq![bits],
{
    let cell = h3o::CellIndex::try_from(bits).unwrap();
    let cells: Vec<h3o::CellIndex> = cell.grid_ring(k);
    cells.into_iter().map(u64::from).collect()
}

/// Calls `h3o::CellIndex::grid_disk`. Taken on trust: that for `k == 0` it
/// yields the cell alone, and that the cells and their order depend on the
/// arguments alone; they are what `disk_cells` denotes.
#[verifier::external_body]
pub(crate) fn disk(bits: u64, k: u32) -> (r: Vec<u64>)
    requires
        is_cell_index(bits),
    ensures
        r@ == disk_cells(bits, k),
        k == 0 ==> r@ == seq![bits],
{
    let cell = h3o::CellIndex::try_from(bits).unwrap();
    let cells: Vec<h3o::CellIndex> = cell.grid_disk(k);
    cells.into_iter().map(u64::from).collect()
}

/// Calls `h3o::CellIndex::grid_path_cells` and collects the line; an error of
/// the call, or of any step of the line, is `None`. Taken on trust: that the
/// outcome depends on the two cells alone; it is what `path_cells` denotes.
#[verifier::external_body]
pub(crate) fn path(origin: u64, destination: u64) -> (r: Option<Vec<u64>>)
    requires
        is_cell_index(origin),
        is_cell_index(destination),
    ensures
        r.is_some() == path_cells(origin, destination).is_some(),
        r matches Some(line) ==> Some(line@) == path_cells(origin, destination),
{
    let origin = h3o::CellIndex::try_from(origin).unwrap();
    let destination = h3o::CellIndex::try_from(destination).unwrap();
    let line = origin.grid_path_cells(destination).ok()?;
    line.map(|step| step.map(u64::from)).collect::<Result<Vec<u64>, _>>().ok()
}

/// Calls `h3o::CellIndex::to_local_ij` and hands out the two coordinates; an
/// error of it is `None`. Taken on trust: that the outcome depends on the two
/// cells alone; it is what `cell_local_ij` denotes.
#[verifier::external_body]
pub(crate) fn local_ij(bits: u64, origin: u64) -> (r: Option<(i32, i32)>)
    requires
        is_cell_index(bits),
        is_cell_index(origin),
    ensures
        r == cell_local_ij(bits, origin),
{
    let cell = h3o::CellIndex::try_from(bits).unwrap();
    let origin = h3o::CellIndex::try_from(origin).unwrap();
    cell.to_local_ij(origin).ok().map(|at| (at.coord.i, at.coord.j))
}

/// Builds an `h3o::LocalIJ` from its parts and calls
/// `h3o::CellIndex::try_from` on it; an error of it is `None`. Taken on trust:
/// that the outcome depends on the arguments alone; it is what
/// `cell_at_local_ij` denotes.
#[verifier::external_body]
pub(crate) fn at_local_ij(origin: u64, i: i32, j: i32) -> (r: Option<u64>)
    requires
        is_cell_index(origin),
    ensures
        r == cell_at_local_ij(origin, i, j),
{
    let origin = h3o::CellIndex::try_from(origin).unwrap();
    let at = h3o::LocalIJ::new(origin, h3o::CoordIJ::new(i, j));
    h3o::CellIndex::try_from(at).ok().map(u64::from)
}

/// Calls `h3o::CellIndex::base_cells`. Taken on trust: that it yields 122
/// indexes, the one of base cell 0 first, each being the index of base cell 0
/// with the number of the base cell written from bit 45 upwards.
#[verifier::external_body]
pub(crate) fn base_cells() -> (r: Vec<u64>)
    ensures
        r@ == Seq::new(BASE_CELL_COUNT as nat, |base: int| base_cell_index(base as u64)),
{
    h3o::CellIndex::base_cells().map(u64::from).collect()
}

/// Calls `h3o::Resolution::pentagons`. Taken on trust: that it yields twelve
/// cells, and that they and their order depend on the resolution alone; they
/// are what `pentagon_cells` denotes.
#[verifier::external_body]
pub(crate) fn pentagons(resolution: u8) -> (r: Vec<u64>)
    requires
        resolution <= MAX_RESOLUTION,
    ensures
        r@ == pentagon_cells(resolution),
        r@.len() == 12,
{
    let resolution = h3o::Resolution::try_from(resolution).unwrap();
    resolution.pentagons().map(u64::from).collect()
}

} // verus!
