use polars_h3::hierarchy::cell_to_children_size;
use polars_h3::inspection::{get_resolution, is_pentagon, is_valid_cell};
use polars_h3::metrics::{get_num_cells, get_res0_cells};
use polars_h3::types::Series;

#[test]
fn cell_count_grows_by_seven_and_six() {
    for resolution in 0..15u8 {
        let here = get_num_cells(resolution).unwrap();
        let below = get_num_cells(resolution + 1).unwrap();
        assert_eq!(below, 7 * (here - 12) + 6 * 12);
    }
}

#[test]
fn the_cells_of_a_resolution_descend_from_the_base_cells() {
    let base: Vec<Option<u64>> = get_res0_cells().unwrap().into_iter().map(Some).collect();
    let column = Series::UInt64(base);
    let shapes = is_pentagon(&column).unwrap();
    assert_eq!(shapes.iter().filter(|shape| **shape == Some(true)).count(), 12);
    assert_eq!(shapes.iter().filter(|shape| **shape == Some(false)).count(), 110);
    for resolution in 0..=15u8 {
        let sizes = cell_to_children_size(&column, Some(resolution)).unwrap();
        let total: u64 = sizes.into_iter().map(|size| size.unwrap()).sum();
        assert_eq!(total, get_num_cells(resolution).unwrap());
    }
}

#[test]
fn every_operation_keeps_the_rows_apart() {
    let mixed = Series::Int64(vec![Some(-1), Some(0x8928308280fffff), None, Some(0x8009fffffffffff)]);
    assert_eq!(get_resolution(&mixed).unwrap(), vec![None, Some(9), None, Some(0)]);
    assert_eq!(is_pentagon(&mixed).unwrap(), vec![None, Some(false), None, Some(true)]);
    assert_eq!(
        is_valid_cell(&mixed).unwrap(),
        vec![Some(false), Some(true), None, Some(true)]
    );
    assert_eq!(
        cell_to_children_size(&mixed, Some(10)).unwrap(),
        vec![None, Some(7), None, Some(235_396_041)]
    );
}
