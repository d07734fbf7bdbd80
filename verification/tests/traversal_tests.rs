use polars_h3::traversal::{
    cell_to_local_ij, grid_disk, grid_distance, grid_path_cells, grid_ring, local_ij_to_cell,
};
use polars_h3::types::{DataType, EngineError, Series};

const CELL: u64 = 0x8928308280fffff;
const NEIGHBOR: u64 = 0x8928308280bffff;
const FINE_CELL: u64 = 0x8a1fb46622dffff;
const FINE_NEIGHBOR: u64 = 0x8a1fb46622d7fff;
const PENTAGON: u64 = 0x8009fffffffffff;

fn grid(bits: u64) -> h3o::CellIndex {
    h3o::CellIndex::try_from(bits).unwrap()
}

fn refused() -> Option<EngineError> {
    Some(EngineError::UnsupportedCellType(DataType::Float64))
}

fn sorted(row: &Option<Series>) -> Vec<u64> {
    match row {
        Some(Series::UInt64(cells)) => {
            let mut cells: Vec<u64> = cells.iter().map(|cell| cell.unwrap()).collect();
            cells.sort();
            cells
        },
        _ => panic!("a list of unsigned integers"),
    }
}

#[test]
fn grid_distance_between_cells() {
    let origins = Series::UInt64(vec![Some(FINE_CELL), Some(CELL), None, Some(CELL), Some(CELL)]);
    let destinations =
        Series::UInt64(vec![Some(FINE_NEIGHBOR), Some(CELL), Some(CELL), None, Some(FINE_CELL)]);
    assert_eq!(
        grid_distance(&origins, &destinations).unwrap(),
        vec![Some(1), Some(0), None, None, None]
    );
}

#[test]
fn grid_distance_is_the_same_both_ways() {
    let far = u64::from(h3o::LatLng::new(37.80, -122.40).unwrap().to_cell(h3o::Resolution::Nine));
    let there = grid_distance(&Series::UInt64(vec![Some(CELL)]), &Series::UInt64(vec![Some(far)]));
    let back = grid_distance(&Series::UInt64(vec![Some(far)]), &Series::UInt64(vec![Some(CELL)]));
    assert_eq!(there, back);
    assert_eq!(there.unwrap(), vec![grid(CELL).grid_distance(grid(far)).ok()]);
}

#[test]
fn grid_distance_reads_mixed_encodings() {
    let origins = Series::String(vec![Some("8a1fb46622dffff".to_string())]);
    let destinations = Series::Int64(vec![Some(FINE_NEIGHBOR as i64)]);
    assert_eq!(grid_distance(&origins, &destinations).unwrap(), vec![Some(1)]);
}

#[test]
fn grid_distance_refuses_bad_columns() {
    let cells = Series::UInt64(vec![Some(CELL)]);
    let other = Series::Other(DataType::Float64, 1);
    assert_eq!(grid_distance(&other, &cells).err(), refused());
    assert_eq!(grid_distance(&cells, &other).err(), refused());
    assert_eq!(
        grid_distance(&cells, &Series::UInt64(vec![])).err(),
        Some(EngineError::LengthMismatch)
    );
}

#[test]
fn grid_disk_of_the_example_cell_has_seven_cells() {
    let out = grid_disk(&Series::UInt64(vec![Some(CELL), None, Some(1)]), 1).unwrap();
    assert_eq!(out.len(), 3);
    assert_eq!(
        out[0],
        Some(Series::UInt64(vec![
            Some(0x8928308280fffff),
            Some(0x8928308280bffff),
            Some(0x89283082873ffff),
            Some(0x89283082877ffff),
            Some(0x8928308283bffff),
            Some(0x89283082807ffff),
            Some(0x89283082803ffff),
        ]))
    );
    assert_eq!(out[1], None);
    assert_eq!(out[2], None);
}

#[test]
fn grid_ring_of_the_example_cell() {
    let out = grid_ring(&Series::UInt64(vec![Some(CELL), None]), 1).unwrap();
    assert_eq!(
        out,
        vec![
            Some(Series::UInt64(vec![
                Some(0x89283082803ffff),
                Some(0x8928308280bffff),
                Some(0x89283082873ffff),
                Some(0x89283082877ffff),
                Some(0x8928308283bffff),
                Some(0x89283082807ffff),
            ])),
            None
        ]
    );
}

#[test]
fn grid_ring_and_disk_at_zero_are_the_cell_alone() {
    let column = Series::UInt64(vec![Some(CELL), Some(PENTAGON), None]);
    let alone = vec![
        Some(Series::UInt64(vec![Some(CELL)])),
        Some(Series::UInt64(vec![Some(PENTAGON)])),
        None,
    ];
    assert_eq!(grid_ring(&column, 0).unwrap(), alone);
    assert_eq!(grid_disk(&column, 0).unwrap(), alone);
}

#[test]
fn grid_disk_is_the_rings_up_to_k() {
    for origin in [CELL, FINE_CELL, PENTAGON, 0x8108bffffffffff] {
        let column = Series::UInt64(vec![Some(origin)]);
        for k in 0..4u32 {
            let disk = sorted(&grid_disk(&column, k).unwrap()[0]);
            let mut rings: Vec<u64> = Vec::new();
            for step in 0..=k {
                rings.extend(sorted(&grid_ring(&column, step).unwrap()[0]));
            }
            rings.sort();
            rings.dedup();
            let mut distinct = disk.clone();
            distinct.dedup();
            assert_eq!(distinct, rings);
        }
    }
}

#[test]
fn grid_disk_around_a_pentagon() {
    let out = grid_disk(&Series::UInt64(vec![Some(PENTAGON)]), 1).unwrap();
    assert_eq!(sorted(&out[0]).len(), 6);
}

#[test]
fn grid_ring_answers_in_the_encoding_of_the_column() {
    let text = Series::String(vec![Some("8928308280fffff".to_string())]);
    assert_eq!(
        grid_ring(&text, 0).unwrap(),
        vec![Some(Series::String(vec![Some("8928308280fffff".to_string())]))]
    );
    let signed = Series::Int64(vec![Some(CELL as i64)]);
    assert_eq!(
        grid_disk(&signed, 0).unwrap(),
        vec![Some(Series::Int64(vec![Some(CELL as i64)]))]
    );
}

#[test]
fn grid_ring_and_disk_refuse_other_types() {
    assert_eq!(grid_ring(&Series::Other(DataType::Float64, 1), 1).err(), refused());
    assert_eq!(grid_disk(&Series::Other(DataType::Float64, 1), 1).err(), refused());
}

#[test]
fn grid_path_cells_from_cell_to_cell() {
    let origins = Series::UInt64(vec![Some(FINE_CELL), Some(CELL), None, Some(CELL)]);
    let destinations =
        Series::UInt64(vec![Some(FINE_NEIGHBOR), Some(CELL), Some(CELL), Some(FINE_CELL)]);
    assert_eq!(
        grid_path_cells(&origins, &destinations).unwrap(),
        vec![
            Some(Series::UInt64(vec![Some(FINE_CELL), Some(FINE_NEIGHBOR)])),
            Some(Series::UInt64(vec![Some(CELL)])),
            None,
            None,
        ]
    );
}

#[test]
fn grid_path_cells_is_one_longer_than_the_distance() {
    let far = u64::from(h3o::LatLng::new(37.80, -122.40).unwrap().to_cell(h3o::Resolution::Nine));
    let origins = Series::UInt64(vec![Some(CELL)]);
    let destinations = Series::UInt64(vec![Some(far)]);
    let distance = grid_distance(&origins, &destinations).unwrap()[0].unwrap();
    assert!(distance > 5);
    let out = grid_path_cells(&origins, &destinations).unwrap();
    match &out[0] {
        Some(Series::UInt64(line)) => {
            assert_eq!(line.len() as i32, distance + 1);
            assert_eq!(line[0], Some(CELL));
            assert_eq!(line[line.len() - 1], Some(far));
        },
        _ => panic!("a list of unsigned integers"),
    }
}

#[test]
fn grid_path_cells_answers_in_the_encoding_of_the_origins() {
    let origins = Series::String(vec![Some("8a1fb46622dffff".to_string())]);
    let destinations = Series::UInt64(vec![Some(FINE_NEIGHBOR)]);
    assert_eq!(
        grid_path_cells(&origins, &destinations).unwrap(),
        vec![Some(Series::String(vec![
            Some("8a1fb46622dffff".to_string()),
            Some("8a1fb46622d7fff".to_string())
        ]))]
    );
}

#[test]
fn grid_path_cells_refuses_bad_columns() {
    let cells = Series::UInt64(vec![Some(CELL)]);
    let other = Series::Other(DataType::Float64, 1);
    assert_eq!(grid_path_cells(&other, &cells).err(), refused());
    assert_eq!(grid_path_cells(&cells, &other).err(), refused());
    assert_eq!(
        grid_path_cells(&cells, &Series::UInt64(vec![None, None])).err(),
        Some(EngineError::LengthMismatch)
    );
}

#[test]
fn cell_to_local_ij_around_an_origin() {
    let cells = Series::UInt64(vec![Some(NEIGHBOR), Some(CELL), None, Some(CELL), Some(FINE_CELL)]);
    let origins = Series::UInt64(vec![Some(CELL), Some(CELL), Some(CELL), None, Some(CELL)]);
    let out = cell_to_local_ij(&cells, &origins).unwrap();
    let expected = |cell: u64, origin: u64| -> Option<(i32, i32)> {
        grid(cell).to_local_ij(grid(origin)).ok().map(|at| (at.coord.i, at.coord.j))
    };
    assert_eq!(
        out,
        vec![expected(NEIGHBOR, CELL), expected(CELL, CELL), None, None, None]
    );
    assert!(out[0].is_some());
    assert_ne!(out[0], out[1]);
}

#[test]
fn cell_to_local_ij_refuses_bad_columns() {
    let cells = Series::UInt64(vec![Some(CELL)]);
    let other = Series::Other(DataType::Float64, 1);
    assert_eq!(cell_to_local_ij(&other, &cells).err(), refused());
    assert_eq!(cell_to_local_ij(&cells, &other).err(), refused());
    assert_eq!(
        cell_to_local_ij(&cells, &Series::UInt64(vec![])).err(),
        Some(EngineError::LengthMismatch)
    );
}

#[test]
fn local_ij_to_cell_undoes_cell_to_local_ij() {
    let cells = Series::UInt64(vec![Some(NEIGHBOR), Some(CELL), Some(0x89283082873ffff)]);
    let origins = Series::UInt64(vec![Some(CELL), Some(CELL), Some(CELL)]);
    let at = cell_to_local_ij(&cells, &origins).unwrap();
    let i: Vec<Option<i32>> = at.iter().map(|row| row.map(|(i, _)| i)).collect();
    let j: Vec<Option<i32>> = at.iter().map(|row| row.map(|(_, j)| j)).collect();
    assert_eq!(
        local_ij_to_cell(&origins, &i, &j).unwrap(),
        vec![Some(NEIGHBOR), Some(CELL), Some(0x89283082873ffff)]
    );
}

#[test]
fn local_ij_to_cell_is_absent_without_origin_or_coordinate() {
    let origins = Series::UInt64(vec![None, Some(CELL), Some(CELL), Some(CELL)]);
    let i = vec![Some(0), None, Some(0), Some(i32::MAX)];
    let j = vec![Some(0), Some(0), None, Some(i32::MAX)];
    assert_eq!(local_ij_to_cell(&origins, &i, &j).unwrap(), vec![None, None, None, None]);
}

#[test]
fn local_ij_to_cell_refuses_bad_columns() {
    let origins = Series::UInt64(vec![Some(CELL)]);
    assert_eq!(
        local_ij_to_cell(&origins, &vec![], &vec![Some(1)]).err(),
        Some(EngineError::LengthMismatch)
    );
    assert_eq!(
        local_ij_to_cell(&origins, &vec![Some(1)], &vec![]).err(),
        Some(EngineError::LengthMismatch)
    );
    assert_eq!(
        local_ij_to_cell(&Series::Other(DataType::Float64, 1), &vec![], &vec![]).err(),
        refused()
    );
}

#[test]
fn absent_rows_do_not_touch_their_neighbors() {
    let mixed = Series::UInt64(vec![None, Some(CELL), Some(0), Some(CELL), None]);
    let alone = Series::UInt64(vec![Some(CELL)]);
    let all = grid_disk(&mixed, 2).unwrap();
    let one = grid_disk(&alone, 2).unwrap();
    assert_eq!(all.len(), 5);
    assert_eq!(all[0], None);
    assert_eq!(all[2], None);
    assert_eq!(all[4], None);
    assert_eq!(all[1], one[0]);
    assert_eq!(all[3], one[0]);
}
