use space_grid::{GridCell, GridError, GridSettings, LocalOffset, SpacePosition, WorldVec};

fn pos(cell: (i64, i64, i64), offset: (i64, i64, i64)) -> SpacePosition {
    SpacePosition {
        cell: GridCell::new(cell.0, cell.1, cell.2),
        offset: LocalOffset::new(offset.0, offset.1, offset.2),
    }
}

fn settings(edge: i64) -> GridSettings {
    GridSettings::new(edge).unwrap()
}

#[test]
fn new_rejects_non_positive_edge() {
    assert_eq!(GridSettings::new(0), Err(GridError::InvalidCellEdge));
    assert_eq!(GridSettings::new(-5), Err(GridError::InvalidCellEdge));
    assert_eq!(GridSettings::new(1000), Ok(GridSettings { cell_edge_length: 1000 }));
}

#[test]
fn to_world_is_cell_times_edge_plus_offset() {
    let s = settings(1000);
    let v = s.to_world(&GridCell::new(2, -3, 0), &LocalOffset::new(5, 7, -9));
    assert_eq!(v, WorldVec::new(2005, -2993, -9));
}

#[test]
fn to_world_handles_extreme_cells() {
    let s = settings(i64::MAX);
    let v = s.to_world(&GridCell::new(i64::MIN, i64::MAX, 0), &LocalOffset::new(i64::MIN, i64::MAX, 1));
    assert_eq!(v.x, i64::MIN as i128 * i64::MAX as i128 + i64::MIN as i128);
    assert_eq!(v.y, i64::MAX as i128 * i64::MAX as i128 + i64::MAX as i128);
    assert_eq!(v.z, 1);
}

#[test]
fn from_world_splits_by_floor() {
    let s = settings(1000);
    let p = s.from_world(&WorldVec::new(2500, -1, -1000)).unwrap();
    assert_eq!(p, pos((2, -1, -1), (500, 999, 0)));
}

#[test]
fn from_world_round_trip() {
    let s = settings(1000);
    let samples = [
        WorldVec::new(0, 0, 0),
        WorldVec::new(999, 1000, 1001),
        WorldVec::new(-1, -999, -1001),
        WorldVec::new(123_456_789_012_345, -987_654_321_098, 7),
        WorldVec::new(i64::MAX as i128 * 1000 + 999, i64::MIN as i128 * 1000, 0),
    ];
    for v in samples.iter() {
        let p = s.from_world(v).unwrap();
        assert_eq!(s.to_world(&p.cell, &p.offset), *v);
    }
}

#[test]
fn from_world_offsets_stay_inside_the_cell() {
    let s = settings(37);
    for k in -200i128..200 {
        let v = WorldVec::new(k * 13, -k * 7 - 5, k * k);
        let p = s.from_world(&v).unwrap();
        for o in [p.offset.x, p.offset.y, p.offset.z] {
            assert!(0 <= o && o < 37);
        }
        assert_eq!(s.to_world(&p.cell, &p.offset), v);
    }
}

#[test]
fn from_world_refuses_cells_beyond_i64() {
    let s = settings(1);
    assert_eq!(s.from_world(&WorldVec::new(i64::MAX as i128 + 1, 0, 0)), None);
    assert_eq!(s.from_world(&WorldVec::new(0, i64::MIN as i128 - 1, 0)), None);
    assert!(s.from_world(&WorldVec::new(i64::MAX as i128, i64::MIN as i128, 0)).is_some());
}

#[test]
fn add_carrying_crosses_a_cell_boundary() {
    let s = settings(1000);
    let start = pos((0, 0, 0), (999, 0, 0));
    let step = pos((0, 0, 0), (2, 0, 0));
    assert_eq!(start.add_carrying(&step, &s), Some(pos((1, 0, 0), (1, 0, 0))));
}

#[test]
fn add_carrying_normalises_negative_offsets() {
    let s = settings(1000);
    let a = pos((5, 0, -2), (-1, 2500, 10));
    let b = pos((-1, 1, 0), (0, 0, -3010));
    assert_eq!(a.add_carrying(&b, &s), Some(pos((3, 3, -5), (999, 500, 0))));
}

#[test]
fn add_carrying_refuses_cells_beyond_i64() {
    let s = settings(10);
    let a = pos((i64::MAX, 0, 0), (9, 0, 0));
    let b = pos((0, 0, 0), (1, 0, 0));
    assert_eq!(a.add_carrying(&b, &s), None);
}

#[test]
fn plain_add_and_sub_do_not_carry() {
    let a = pos((0, 1, 2), (999, -5, 0));
    let b = pos((0, -1, 3), (2, 10, 0));
    assert_eq!(a.add(&b), pos((0, 0, 5), (1001, 5, 0)));
    assert_eq!(a.sub(&b), pos((0, 2, -1), (997, -15, 0)));
}

#[test]
fn checked_add_and_sub_report_overflow() {
    let a = pos((i64::MAX, 0, 0), (0, 0, 0));
    let one = pos((1, 0, 0), (0, 0, 0));
    assert_eq!(a.checked_add(&one), None);
    assert_eq!(pos((i64::MIN, 0, 0), (0, 0, 0)).checked_sub(&one), None);
    assert_eq!(a.checked_sub(&one), Some(pos((i64::MAX - 1, 0, 0), (0, 0, 0))));
    let off = pos((0, 0, 0), (0, 0, i64::MIN));
    assert_eq!(off.checked_sub(&pos((0, 0, 0), (0, 0, 1))), None);
}

#[test]
fn cell_and_offset_arithmetic() {
    assert_eq!(GridCell::new(1, 2, 3).checked_add(&GridCell::new(-1, 5, 0)), Some(GridCell::new(0, 7, 3)));
    assert_eq!(GridCell::new(1, 2, 3).checked_sub(&GridCell::new(-1, 5, 0)), Some(GridCell::new(2, -3, 3)));
    assert_eq!(GridCell::new(0, i64::MIN, 0).checked_sub(&GridCell::new(0, 1, 0)), None);
    assert_eq!(LocalOffset::new(4, 0, 0).checked_add_wide(&WorldVec::new(-10, 3, 0)), Some(LocalOffset::new(-6, 3, 0)));
    assert_eq!(LocalOffset::new(0, 0, 0).checked_add_wide(&WorldVec::new(i64::MAX as i128 + 1, 0, 0)), None);
    assert_eq!(WorldVec::new(5, 0, 0).checked_sub(&WorldVec::new(7, 0, 1)), Some(WorldVec::new(-2, 0, -1)));
    assert_eq!(WorldVec::new(i128::MIN, 0, 0).checked_sub(&WorldVec::new(1, 0, 0)), None);
}
