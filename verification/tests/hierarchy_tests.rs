use polars_h3::hierarchy::{
    cell_to_center_child, cell_to_child_pos, cell_to_children, cell_to_children_size,
    cell_to_parent, child_pos_to_cell, compact_cells, uncompact_cells,
};
use polars_h3::types::{DataType, EngineError, Series};

const CELL: u64 = 0x8928308280fffff;
const PARENT: u64 = 0x8828308281fffff;
const FINE_CELL: u64 = 0x8a1fb46622dffff;
const PENTAGON: u64 = 0x8009fffffffffff;
const LAST_CELL: u64 = 0x8f1fb46622d8000;

fn grid(bits: u64) -> h3o::CellIndex {
    h3o::CellIndex::try_from(bits).unwrap()
}

fn level(resolution: u8) -> h3o::Resolution {
    h3o::Resolution::try_from(resolution).unwrap()
}

fn refused() -> Option<EngineError> {
    Some(EngineError::UnsupportedCellType(DataType::Float64))
}

#[test]
fn cell_to_parent_of_the_example_cell() {
    let column = Series::UInt64(vec![Some(CELL), None, Some(FINE_CELL), Some(12)]);
    assert_eq!(
        cell_to_parent(&column, Some(8)).unwrap(),
        Series::UInt64(vec![Some(PARENT), None, Some(0x881fb46623fffff), None])
    );
    assert_eq!(
        cell_to_parent(&Series::UInt64(vec![Some(FINE_CELL)]), Some(5)).unwrap(),
        Series::UInt64(vec![Some(0x851fb467fffffff)])
    );
}

#[test]
fn cell_to_parent_defaults_to_one_level_up() {
    let column = Series::UInt64(vec![Some(CELL), Some(PENTAGON)]);
    assert_eq!(cell_to_parent(&column, None).unwrap(), Series::UInt64(vec![Some(PARENT), None]));
}

#[test]
fn cell_to_parent_is_absent_at_a_finer_resolution() {
    let column = Series::UInt64(vec![Some(CELL), Some(FINE_CELL)]);
    assert_eq!(
        cell_to_parent(&column, Some(10)).unwrap(),
        Series::UInt64(vec![None, Some(FINE_CELL)])
    );
}

#[test]
fn cell_to_parent_answers_in_the_encoding_of_the_column() {
    let text = Series::String(vec![Some("8928308280fffff".to_string()), None]);
    assert_eq!(
        cell_to_parent(&text, Some(8)).unwrap(),
        Series::String(vec![Some("8828308281fffff".to_string()), None])
    );
    let signed = Series::Int64(vec![Some(CELL as i64)]);
    assert_eq!(cell_to_parent(&signed, Some(8)).unwrap(), Series::Int64(vec![Some(PARENT as i64)]));
}

#[test]
fn cell_to_parent_refuses_bad_configuration() {
    let column = Series::UInt64(vec![Some(CELL)]);
    assert_eq!(cell_to_parent(&column, Some(16)).err(), Some(EngineError::InvalidResolution(16)));
    assert_eq!(cell_to_parent(&Series::Other(DataType::Float64, 1), Some(3)).err(), refused());
    assert_eq!(
        cell_to_parent(&Series::Other(DataType::Float64, 1), Some(200)).err(),
        Some(EngineError::InvalidResolution(200))
    );
}

#[test]
fn cell_to_center_child_of_cells() {
    let column = Series::UInt64(vec![Some(FINE_CELL), None, Some(LAST_CELL)]);
    assert_eq!(
        cell_to_center_child(&column, Some(15)).unwrap(),
        Series::UInt64(vec![Some(LAST_CELL), None, Some(LAST_CELL)])
    );
    assert_eq!(
        cell_to_center_child(&column, Some(9)).unwrap(),
        Series::UInt64(vec![None, None, None])
    );
    let next = u64::from(grid(FINE_CELL).center_child(level(11)).unwrap());
    assert_eq!(
        cell_to_center_child(&column, None).unwrap(),
        Series::UInt64(vec![Some(next), None, None])
    );
    assert_eq!(
        cell_to_center_child(&column, Some(16)).err(),
        Some(EngineError::InvalidResolution(16))
    );
    assert_eq!(cell_to_center_child(&Series::Other(DataType::Float64, 1), None).err(), refused());
}

#[test]
fn cell_to_children_size_counts_descendants() {
    let column = Series::UInt64(vec![Some(FINE_CELL), Some(PENTAGON), None, Some(LAST_CELL)]);
    assert_eq!(
        cell_to_children_size(&column, Some(15)).unwrap(),
        vec![Some(16_807), Some(3_956_301_258_286), None, Some(1)]
    );
    assert_eq!(
        cell_to_children_size(&column, None).unwrap(),
        vec![Some(7), Some(6), None, None]
    );
    assert_eq!(
        cell_to_children_size(&column, Some(3)).unwrap(),
        vec![Some(0), Some(286), None, Some(0)]
    );
    assert_eq!(
        cell_to_children_size(&column, Some(16)).err(),
        Some(EngineError::InvalidResolution(16))
    );
    assert_eq!(cell_to_children_size(&Series::Other(DataType::Float64, 1), None).err(), refused());
}

#[test]
fn cell_to_children_lists_descendants_in_the_order_of_the_grid() {
    let column = Series::UInt64(vec![Some(CELL), None, Some(PENTAGON)]);
    let out = cell_to_children(&column, None).unwrap();
    let expected = |bits: u64, resolution: u8| -> Vec<Option<u64>> {
        grid(bits).children(level(resolution)).map(|cell| Some(u64::from(cell))).collect()
    };
    assert_eq!(out.len(), 3);
    assert_eq!(out[0], Some(Series::UInt64(expected(CELL, 10))));
    assert_eq!(out[1], None);
    assert_eq!(out[2], Some(Series::UInt64(expected(PENTAGON, 1))));
    match &out[0] {
        Some(Series::UInt64(children)) => {
            assert_eq!(children.len(), 7);
            assert_eq!(children[0], Some(u64::from(grid(CELL).center_child(level(10)).unwrap())));
        },
        _ => panic!("a list of unsigned integers"),
    }
    match &out[2] {
        Some(Series::UInt64(children)) => assert_eq!(children.len(), 6),
        _ => panic!("a list of unsigned integers"),
    }
}

#[test]
fn cell_to_children_at_own_and_coarser_resolution() {
    let column = Series::String(vec![Some("8928308280fffff".to_string())]);
    assert_eq!(
        cell_to_children(&column, Some(9)).unwrap(),
        vec![Some(Series::String(vec![Some("8928308280fffff".to_string())]))]
    );
    assert_eq!(cell_to_children(&column, Some(8)).unwrap(), vec![Some(Series::String(vec![]))]);
    assert_eq!(
        cell_to_children(&column, Some(16)).err(),
        Some(EngineError::InvalidResolution(16))
    );
    assert_eq!(cell_to_children(&Series::Other(DataType::Float64, 1), None).err(), refused());
    let last = Series::UInt64(vec![Some(LAST_CELL)]);
    assert_eq!(cell_to_children(&last, None).unwrap(), vec![None]);
}

#[test]
fn cell_to_child_pos_ranks_a_cell() {
    let column = Series::UInt64(vec![Some(FINE_CELL), None, Some(CELL)]);
    assert_eq!(cell_to_child_pos(&column, 8).unwrap(), vec![Some(24), None, Some(3)]);
    let rank = grid(CELL).child_position(level(4));
    assert_eq!(cell_to_child_pos(&column, 4).unwrap()[2], rank);
    assert_eq!(cell_to_child_pos(&column, 10).unwrap(), vec![Some(0), None, None]);
    assert_eq!(cell_to_child_pos(&column, 12).unwrap(), vec![None, None, None]);
    assert_eq!(cell_to_child_pos(&column, 16).err(), Some(EngineError::InvalidResolution(16)));
    assert_eq!(cell_to_child_pos(&Series::Other(DataType::Float64, 1), 0).err(), refused());
}

#[test]
fn child_pos_to_cell_finds_the_child() {
    let parents = Series::UInt64(vec![Some(0x881fb46623fffff), Some(0x881fb46623fffff), None,
        Some(0x881fb46623fffff), Some(0x881fb46623fffff)]);
    let ranks = vec![Some(24), Some(49), Some(1), None, Some(48)];
    let last = u64::from(grid(0x881fb46623fffff).child_at(48, level(10)).unwrap());
    assert_eq!(
        child_pos_to_cell(&parents, 10, &ranks).unwrap(),
        Series::UInt64(vec![Some(FINE_CELL), None, None, None, Some(last)])
    );
    assert_eq!(
        child_pos_to_cell(&parents, 5, &ranks).unwrap(),
        Series::UInt64(vec![None, None, None, None, None])
    );
}

#[test]
fn child_pos_to_cell_refuses_bad_configuration() {
    let parents = Series::UInt64(vec![Some(PARENT)]);
    assert_eq!(
        child_pos_to_cell(&parents, 16, &vec![Some(0)]).err(),
        Some(EngineError::InvalidResolution(16))
    );
    assert_eq!(child_pos_to_cell(&parents, 9, &vec![]).err(), Some(EngineError::LengthMismatch));
    assert_eq!(
        child_pos_to_cell(&Series::Other(DataType::Float64, 1), 9, &vec![]).err(),
        refused()
    );
}

#[test]
fn child_position_round_trip_on_cells() {
    for bits in [CELL, FINE_CELL, LAST_CELL] {
        let own = u8::from(grid(bits).resolution());
        for resolution in 0..=own {
            let column = Series::UInt64(vec![Some(bits)]);
            let rank = cell_to_child_pos(&column, resolution).unwrap();
            let parent = cell_to_parent(&column, Some(resolution)).unwrap();
            assert_eq!(child_pos_to_cell(&parent, own, &rank).unwrap(), column);
        }
    }
}

#[test]
fn a_cell_is_among_the_children_of_its_parents() {
    let column = Series::UInt64(vec![Some(CELL)]);
    for resolution in 5..=9u8 {
        let parent = cell_to_parent(&column, Some(resolution)).unwrap();
        let children = cell_to_children(&parent, Some(9)).unwrap();
        match &children[0] {
            Some(Series::UInt64(children)) => assert!(children.contains(&Some(CELL))),
            _ => panic!("a list of unsigned integers"),
        }
    }
}

fn siblings() -> Vec<Option<u64>> {
    let children: Vec<Option<u64>> =
        grid(0x8001fffffffffff).children(level(1)).map(|cell| Some(u64::from(cell))).collect();
    assert_eq!(children.len(), 7);
    assert_eq!(children[0], Some(0x81003ffffffffff));
    assert_eq!(children[6], Some(0x8101bffffffffff));
    children
}

#[test]
fn compact_cells_replaces_siblings_by_their_parent() {
    let mut shuffled = siblings();
    shuffled.reverse();
    shuffled.insert(3, None);
    shuffled.push(Some(7));
    let lists = vec![
        Some(Series::UInt64(siblings())),
        None,
        Some(Series::UInt64(shuffled)),
        Some(Series::UInt64(vec![])),
        Some(Series::UInt64(vec![Some(CELL)])),
    ];
    assert_eq!(
        compact_cells(&lists).unwrap(),
        vec![
            Some(Series::UInt64(vec![Some(0x8001fffffffffff)])),
            None,
            Some(Series::UInt64(vec![Some(0x8001fffffffffff)])),
            Some(Series::UInt64(vec![])),
            Some(Series::UInt64(vec![Some(CELL)])),
        ]
    );
}

#[test]
fn compact_cells_is_absent_for_what_is_no_set_of_one_resolution() {
    let lists = vec![
        Some(Series::UInt64(vec![Some(CELL), Some(CELL)])),
        Some(Series::UInt64(vec![Some(CELL), Some(PARENT)])),
    ];
    assert_eq!(compact_cells(&lists).unwrap(), vec![None, None]);
}

#[test]
fn compact_cells_answers_in_the_encoding_of_each_list() {
    let text: Vec<Option<String>> =
        siblings().into_iter().map(|cell| cell.map(|bits| format!("{:x}", bits))).collect();
    let lists = vec![Some(Series::String(text))];
    assert_eq!(
        compact_cells(&lists).unwrap(),
        vec![Some(Series::String(vec![Some("8001fffffffffff".to_string())]))]
    );
}

#[test]
fn compact_cells_refuses_other_types() {
    let lists = vec![
        Some(Series::UInt64(vec![Some(CELL)])),
        None,
        Some(Series::Other(DataType::Float64, 2)),
        Some(Series::Other(DataType::Null, 0)),
    ];
    assert_eq!(compact_cells(&lists).err(), refused());
}

#[test]
fn compact_cells_twice_on_cells_of_one_parent() {
    let once = compact_cells(&vec![Some(Series::UInt64(siblings()))]).unwrap();
    assert_eq!(compact_cells(&once).unwrap(), once);
}

#[test]
fn uncompact_cells_expands_to_the_resolution() {
    let lists = vec![
        Some(Series::UInt64(vec![Some(0x8001fffffffffff)])),
        None,
        Some(Series::UInt64(vec![Some(PARENT), None, Some(CELL), Some(3)])),
        Some(Series::UInt64(vec![Some(FINE_CELL), Some(PARENT)])),
        Some(Series::UInt64(vec![])),
    ];
    let out = uncompact_cells(&lists, 1).unwrap();
    assert_eq!(out[0], Some(Series::UInt64(siblings())));
    assert_eq!(out[1], None);
    assert_eq!(out[2], None);
    assert_eq!(out[3], None);
    assert_eq!(out[4], Some(Series::UInt64(vec![])));
    let out = uncompact_cells(&lists, 9).unwrap();
    let mut expected: Vec<Option<u64>> =
        grid(PARENT).children(level(9)).map(|cell| Some(u64::from(cell))).collect();
    expected.push(Some(CELL));
    assert_eq!(out[2], Some(Series::UInt64(expected)));
    assert_eq!(out[3], None);
}

#[test]
fn uncompact_cells_agrees_with_the_grid() {
    let set = vec![grid(PARENT), grid(0x881fb46623fffff)];
    let expected: Vec<Option<u64>> =
        h3o::CellIndex::uncompact(set, level(10)).map(|cell| Some(u64::from(cell))).collect();
    let lists = vec![Some(Series::UInt64(vec![Some(PARENT), Some(0x881fb46623fffff)]))];
    assert_eq!(uncompact_cells(&lists, 10).unwrap(), vec![Some(Series::UInt64(expected))]);
}

#[test]
fn uncompact_cells_undoes_compact_cells() {
    let compacted = compact_cells(&vec![Some(Series::UInt64(siblings()))]).unwrap();
    assert_eq!(uncompact_cells(&compacted, 1).unwrap(), vec![Some(Series::UInt64(siblings()))]);
}

#[test]
fn uncompact_cells_refuses_bad_configuration() {
    let lists = vec![Some(Series::Other(DataType::Float64, 2))];
    assert_eq!(uncompact_cells(&lists, 16).err(), Some(EngineError::InvalidResolution(16)));
    assert_eq!(uncompact_cells(&lists, 3).err(), refused());
}
