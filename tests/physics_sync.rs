use space_grid::{GridCell, GridError, GridSettings, LocalOffset, PhysicsOrigin, SpacePosition, SyncedBody, WorldVec};

fn pos(cell: (i64, i64, i64), offset: (i64, i64, i64)) -> SpacePosition {
    SpacePosition {
        cell: GridCell::new(cell.0, cell.1, cell.2),
        offset: LocalOffset::new(offset.0, offset.1, offset.2),
    }
}

fn body(render: SpacePosition, physics: (i128, i128, i128)) -> SyncedBody {
    SyncedBody { render, physics: WorldVec::new(physics.0, physics.1, physics.2) }
}

fn origin_at(index: usize) -> PhysicsOrigin {
    let mut origin = PhysicsOrigin::new();
    origin.set_body(index);
    origin
}

fn world(s: &GridSettings, p: &SpacePosition) -> WorldVec {
    s.to_world(&p.cell, &p.offset)
}

#[test]
fn first_sync_only_records_the_origin() {
    let s = GridSettings::new(1000).unwrap();
    let mut origin = origin_at(1);
    let mut bodies = vec![body(pos((0, 0, 0), (5, 0, 0)), (5, 0, 0)), body(pos((0, 0, 0), (0, 0, 0)), (0, 0, 0))];
    let before = bodies.clone();
    assert_eq!(origin.sync_physics_origin(&s, &mut bodies), Ok(None));
    assert_eq!(origin.prev, Some(pos((0, 0, 0), (0, 0, 0))));
    assert_eq!(origin.body, Some(1));
    assert_eq!(bodies, before);
}

#[test]
fn origin_teleport_by_one_cell_shifts_the_physics_frame() {
    let s = GridSettings::new(1000).unwrap();
    let mut origin = origin_at(0);
    let mut bodies = vec![
        body(pos((0, 0, 0), (12, 0, 0)), (0, 0, 0)),
        body(pos((0, 0, 0), (500, 0, 0)), (488, 0, 0)),
        body(pos((3, -1, 2), (7, 8, 9)), (2995, -992, 2009)),
    ];
    assert_eq!(origin.sync_physics_origin(&s, &mut bodies), Ok(None));
    bodies[0].render.cell = GridCell::new(1, 0, 0);
    let before = bodies.clone();
    let moved = origin.sync_physics_origin(&s, &mut bodies);
    assert_eq!(moved, Ok(Some(WorldVec::new(1000, 0, 0))));
    assert_eq!(bodies[0], before[0]);
    assert_eq!(bodies[1].physics, WorldVec::new(488 - 1000, 0, 0));
    assert_eq!(bodies[2].physics, WorldVec::new(2995 - 1000, -992, 2009));
    for k in 0..3 {
        assert_eq!(bodies[k].render, before[k].render);
    }
    // every body still stands where its render position says, seen from the origin
    let o = world(&s, &bodies[0].render);
    for k in 1..3 {
        let w = world(&s, &bodies[k].render);
        assert_eq!(bodies[k].physics, WorldVec::new(w.x - o.x, w.y - o.y, w.z - o.z));
    }
    assert_eq!(origin.prev, Some(bodies[0].render));
}

#[test]
fn physics_shift_is_the_world_form_of_the_origin_move() {
    let s = GridSettings::new(250).unwrap();
    let mut origin = origin_at(1);
    let mut bodies = vec![body(pos((9, 9, 9), (1, 2, 3)), (-40, 17, 1_000_000)), body(pos((-2, 5, 0), (249, -3, 100)), (0, 0, 0))];
    assert_eq!(origin.sync_physics_origin(&s, &mut bodies), Ok(None));
    // the origin moves by cell (3, -1, 0) and offset (-260, 4, 0)
    bodies[1].render = pos((1, 4, 0), (-11, 1, 100));
    let moved = origin.sync_physics_origin(&s, &mut bodies).unwrap().unwrap();
    let delta = s.to_world(&GridCell::new(3, -1, 0), &LocalOffset::new(-260, 4, 0));
    assert_eq!(moved, delta);
    assert_eq!(delta, WorldVec::new(490, -246, 0));
    assert_eq!(bodies[0].physics, WorldVec::new(-40 - 490, 17 + 246, 1_000_000));
}

#[test]
fn origin_sync_errors() {
    let s = GridSettings::new(1000).unwrap();
    let mut bodies = vec![body(pos((0, 0, 0), (0, 0, 0)), (0, 0, 0))];
    let mut none = PhysicsOrigin::new();
    assert_eq!(none.sync_physics_origin(&s, &mut bodies), Err(GridError::MissingOrigin));
    let mut far = origin_at(3);
    assert_eq!(far.sync_physics_origin(&s, &mut bodies), Err(GridError::MissingOrigin));
    assert_eq!(far.prev, None);

    let mut origin = origin_at(0);
    let mut bodies = vec![body(pos((0, 0, 0), (0, 0, 0)), (0, 0, 0)), body(pos((0, 0, 0), (0, 0, 0)), (i128::MIN + 5, 0, 0))];
    assert_eq!(origin.sync_physics_origin(&s, &mut bodies), Ok(None));
    bodies[0].render.offset = LocalOffset::new(10, 0, 0);
    let before = bodies.clone();
    let saved = origin;
    assert_eq!(origin.sync_physics_origin(&s, &mut bodies), Err(GridError::OutOfRange));
    assert_eq!(bodies, before);
    assert_eq!(origin, saved);

    let mut origin = origin_at(0);
    let mut bodies = vec![body(pos((i64::MIN, 0, 0), (0, 0, 0)), (0, 0, 0))];
    assert_eq!(origin.sync_physics_origin(&s, &mut bodies), Ok(None));
    bodies[0].render.cell = GridCell::new(i64::MAX, 0, 0);
    assert_eq!(origin.sync_physics_origin(&s, &mut bodies), Err(GridError::OutOfRange));
}

#[test]
fn set_body_forgets_the_recorded_position() {
    let s = GridSettings::new(1000).unwrap();
    let mut origin = origin_at(0);
    let mut bodies = vec![body(pos((0, 0, 0), (0, 0, 0)), (0, 0, 0)), body(pos((1, 0, 0), (0, 0, 0)), (1000, 0, 0))];
    assert_eq!(origin.sync_physics_origin(&s, &mut bodies), Ok(None));
    origin.set_body(1);
    assert_eq!(origin, PhysicsOrigin { body: Some(1), prev: None });
}

#[test]
fn transforms_are_mirrored_into_the_physics_frame() {
    let s = GridSettings::new(1000).unwrap();
    let origin = origin_at(1);
    let mut bodies = vec![
        body(pos((2, 0, -1), (10, 20, 30)), (0, 0, 0)),
        body(pos((1, 1, 1), (0, 5, 900)), (77, 77, 77)),
        body(pos((1, 1, 1), (0, 5, 900)), (3, 3, 3)),
    ];
    assert_eq!(origin.sync_transforms_to_physics(&s, &mut bodies), Ok(()));
    assert_eq!(bodies[0].physics, WorldVec::new(1010, -985, -2870));
    assert_eq!(bodies[1].physics, WorldVec::new(77, 77, 77));
    assert_eq!(bodies[2].physics, WorldVec::new(0, 0, 0));
    assert_eq!(bodies[0].render, pos((2, 0, -1), (10, 20, 30)));

    let mut far = vec![body(pos((i64::MIN, 0, 0), (0, 0, 0)), (0, 0, 0)), body(pos((1, 0, 0), (0, 0, 0)), (0, 0, 0))];
    let before = far.clone();
    assert_eq!(origin.sync_transforms_to_physics(&s, &mut far), Err(GridError::OutOfRange));
    assert_eq!(far, before);
    assert_eq!(PhysicsOrigin::new().sync_transforms_to_physics(&s, &mut far), Err(GridError::MissingOrigin));
}

#[test]
fn fix_origin_to_zero_moves_the_frame_onto_the_origin() {
    let mut origin = origin_at(0);
    let mut bodies = vec![
        body(pos((4, 0, 0), (10, 20, 30)), (5, -6, 7)),
        body(pos((0, 0, 0), (0, 0, 0)), (100, 100, 100)),
    ];
    assert_eq!(origin.fix_origin_to_zero(&mut bodies), Ok(()));
    assert_eq!(bodies[0], body(pos((4, 0, 0), (15, 14, 37)), (0, 0, 0)));
    assert_eq!(bodies[1], body(pos((0, 0, 0), (0, 0, 0)), (95, 106, 93)));
    assert_eq!(origin, PhysicsOrigin { body: Some(0), prev: Some(pos((4, 0, 0), (15, 14, 37))) });

    let mut far = vec![body(pos((0, 0, 0), (i64::MAX, 0, 0)), (1, 0, 0))];
    let before = far.clone();
    let saved = origin;
    assert_eq!(origin.fix_origin_to_zero(&mut far), Err(GridError::OutOfRange));
    assert_eq!(far, before);
    assert_eq!(origin, saved);
    assert_eq!(origin_at(2).fix_origin_to_zero(&mut far), Err(GridError::MissingOrigin));
}

#[test]
fn physics_is_mirrored_back_into_render_offsets() {
    let s = GridSettings::new(1000).unwrap();
    let origin = origin_at(0);
    let mut bodies = vec![
        body(pos((1, 0, 0), (0, 0, 0)), (0, 0, 0)),
        body(pos((1, 0, 0), (500, 0, 0)), (520, -3, 0)),
        body(pos((0, 2, 0), (0, 0, 0)), (-1000, 2000, 1)),
    ];
    assert_eq!(origin.sync_physics_to_transforms(&s, &mut bodies), Ok(()));
    assert_eq!(bodies[0].render, pos((1, 0, 0), (0, 0, 0)));
    assert_eq!(bodies[1].render, pos((1, 0, 0), (520, -3, 0)));
    assert_eq!(bodies[2].render, pos((0, 2, 0), (0, 0, 1)));
    let o = world(&s, &bodies[0].render);
    for k in 0..3 {
        let w = world(&s, &bodies[k].render);
        let p = bodies[k].physics;
        assert_eq!(WorldVec::new(w.x - o.x, w.y - o.y, w.z - o.z), p);
    }

    let mut far = vec![body(pos((0, 0, 0), (0, 0, 0)), (0, 0, 0)), body(pos((0, 0, 0), (0, 0, 0)), (i64::MAX as i128 + 1, 0, 0))];
    let before = far.clone();
    assert_eq!(origin.sync_physics_to_transforms(&s, &mut far), Err(GridError::OutOfRange));
    assert_eq!(far, before);
    assert_eq!(PhysicsOrigin::new().sync_physics_to_transforms(&s, &mut far), Err(GridError::MissingOrigin));
}

#[test]
fn solver_movement_of_the_origin_is_counted_once() {
    let s = GridSettings::new(1000).unwrap();
    let mut origin = origin_at(0);
    let mut bodies = vec![body(pos((0, 0, 0), (0, 0, 0)), (0, 0, 0)), body(pos((0, 0, 0), (300, 0, 0)), (300, 0, 0))];
    assert_eq!(origin.sync_physics_origin(&s, &mut bodies), Ok(None));
    assert_eq!(origin.sync_transforms_to_physics(&s, &mut bodies), Ok(()));
    // the solver moves the origin by (50, 0, 0) and the other body by (5, 0, 0)
    bodies[0].physics = WorldVec::new(50, 0, 0);
    bodies[1].physics = WorldVec::new(305, 0, 0);
    assert_eq!(origin.fix_origin_to_zero(&mut bodies), Ok(()));
    assert_eq!(origin.sync_physics_to_transforms(&s, &mut bodies), Ok(()));
    assert_eq!(bodies[0].render, pos((0, 0, 0), (50, 0, 0)));
    assert_eq!(bodies[1].render, pos((0, 0, 0), (305, 0, 0)));
    assert_eq!(bodies[1].physics, WorldVec::new(255, 0, 0));
    // next frame: nothing moved on the render side since
    assert_eq!(origin.sync_physics_origin(&s, &mut bodies), Ok(Some(WorldVec::new(0, 0, 0))));
    assert_eq!(bodies[1].physics, WorldVec::new(255, 0, 0));
}
