use polars_h3::inspection::{
    get_icosahedron_faces, get_resolution, int_to_str, is_pentagon, is_res_class_III,
    is_valid_cell, str_to_int,
};
use polars_h3::types::{DataType, EngineError, Series};

const CELL: u64 = 0x8928308280fffff;
const FINE_CELL: u64 = 0x8a1fb46622dffff;
const PENTAGON: u64 = 0x8009fffffffffff;

fn refused() -> Option<EngineError> {
    Some(EngineError::UnsupportedCellType(DataType::Float64))
}

#[test]
fn get_resolution_of_the_example_cell() {
    let column = Series::UInt64(vec![Some(CELL), None, Some(FINE_CELL), Some(PENTAGON), Some(5)]);
    assert_eq!(get_resolution(&column).unwrap(), vec![Some(9), None, Some(10), Some(0), None]);
}

#[test]
fn get_resolution_reads_every_encoding() {
    let text = Series::String(vec![Some("8928308280fffff".to_string()), Some("zz".to_string())]);
    assert_eq!(get_resolution(&text).unwrap(), vec![Some(9), None]);
    let signed = Series::Int64(vec![Some(CELL as i64), Some(-1)]);
    assert_eq!(get_resolution(&signed).unwrap(), vec![Some(9), None]);
}

#[test]
fn get_resolution_agrees_with_the_grid() {
    for resolution in 0..=15u8 {
        let level = h3o::Resolution::try_from(resolution).unwrap();
        let cell = u64::from(h3o::LatLng::new(48.864716, 2.349014).unwrap().to_cell(level));
        let out = get_resolution(&Series::UInt64(vec![Some(cell)])).unwrap();
        assert_eq!(out, vec![Some(u32::from(resolution))]);
    }
}

#[test]
fn get_resolution_refuses_other_types() {
    assert_eq!(get_resolution(&Series::Other(DataType::Float64, 1)).err(), refused());
}

#[test]
fn is_valid_cell_tells_unknown_from_no() {
    let column = Series::UInt64(vec![Some(CELL), None, Some(0), Some(0x16a1fb46622dffff)]);
    assert_eq!(is_valid_cell(&column).unwrap(), vec![Some(true), None, Some(false), Some(false)]);
    let text = Series::String(vec![
        Some("8928308280fffff".to_string()),
        Some("hello".to_string()),
        None,
        Some("".to_string()),
    ]);
    assert_eq!(is_valid_cell(&text).unwrap(), vec![Some(true), Some(false), None, Some(false)]);
    let signed = Series::Int64(vec![Some(-5), None, Some(PENTAGON as i64)]);
    assert_eq!(is_valid_cell(&signed).unwrap(), vec![Some(false), None, Some(true)]);
}

#[test]
fn is_valid_cell_refuses_other_types() {
    assert_eq!(is_valid_cell(&Series::Other(DataType::Float64, 1)).err(), refused());
}

#[test]
fn is_pentagon_of_hexagons_and_pentagons() {
    let column = Series::UInt64(vec![Some(CELL), Some(PENTAGON), None, Some(1)]);
    assert_eq!(is_pentagon(&column).unwrap(), vec![Some(false), Some(true), None, None]);
    assert_eq!(is_pentagon(&Series::Other(DataType::Float64, 1)).err(), refused());
}

#[test]
fn is_pentagon_finds_the_twelve_of_a_resolution() {
    let cells: Vec<Option<u64>> =
        h3o::Resolution::Three.pentagons().map(|cell| Some(u64::from(cell))).collect();
    assert_eq!(is_pentagon(&Series::UInt64(cells)).unwrap(), vec![Some(true); 12]);
}

#[test]
fn is_res_class_iii_is_the_odd_resolutions() {
    let column = Series::UInt64(vec![Some(CELL), Some(FINE_CELL), Some(PENTAGON), None, Some(3)]);
    assert_eq!(
        is_res_class_III(&column).unwrap(),
        vec![Some(true), Some(false), Some(false), None, None]
    );
    assert_eq!(is_res_class_III(&Series::Other(DataType::Float64, 1)).err(), refused());
}

#[test]
fn get_icosahedron_faces_of_cells() {
    let column = Series::UInt64(vec![Some(0x89283470803ffff), None, Some(PENTAGON), Some(9)]);
    let faces = get_icosahedron_faces(&column).unwrap();
    assert_eq!(faces[0], Some(vec![7]));
    assert_eq!(faces[1], None);
    assert_eq!(faces[3], None);
    let expected: Vec<i64> = h3o::CellIndex::try_from(PENTAGON)
        .unwrap()
        .icosahedron_faces()
        .iter()
        .map(|face| i64::from(u8::from(face)))
        .collect();
    assert_eq!(expected.len(), 5);
    assert_eq!(faces[2], Some(expected));
    assert_eq!(get_icosahedron_faces(&Series::Other(DataType::Float64, 1)).err(), refused());
}

#[test]
fn str_to_int_reads_any_hexadecimal_number() {
    let text = Series::String(vec![
        Some("8928308280fffff".to_string()),
        Some("ff".to_string()),
        Some("nope".to_string()),
        None,
    ]);
    assert_eq!(str_to_int(&text).unwrap(), vec![Some(CELL), Some(255), None, None]);
    assert_eq!(str_to_int(&Series::Other(DataType::Float64, 1)).err(), refused());
}

#[test]
fn int_to_str_writes_any_number() {
    let column = Series::UInt64(vec![Some(CELL), Some(255), Some(0), None]);
    assert_eq!(
        int_to_str(&column).unwrap(),
        vec![Some("8928308280fffff".to_string()), Some("ff".to_string()), Some("0".to_string()), None]
    );
    let signed = Series::Int64(vec![Some(-1)]);
    assert_eq!(int_to_str(&signed).unwrap(), vec![Some("ffffffffffffffff".to_string())]);
    assert_eq!(int_to_str(&Series::Other(DataType::Float64, 1)).err(), refused());
}

#[test]
fn int_to_str_writes_what_the_grid_writes() {
    let cell = h3o::CellIndex::try_from(CELL).unwrap();
    assert_eq!(int_to_str(&Series::UInt64(vec![Some(CELL)])).unwrap(), vec![Some(cell.to_string())]);
}
