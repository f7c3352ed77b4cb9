//! Synchronisation between the render-side grid and a physics frame that is
//! kept centred on a physics-origin body.
use vstd::prelude::*;
use crate::grid::{fits_i64, point_add, point_fits_i128, point_fits_i64, point_sub, world_vec, LocalOffset, Point, WorldVec};
use crate::position::SpacePosition;
use crate::recenter::names_index;
use crate::settings::{lemma_world_of_linear, GridError, GridSettings};

verus! {

/// A body seen from both sides: where the render side places it, and where it
/// stands in the physics frame, whose zero is the physics origin.
#[derive(Clone, Copy, Debug, PartialEq, Eq, Structural, Default)]
pub struct SyncedBody {
    pub render: SpacePosition,
    pub physics: WorldVec,
}

/// The physics-origin role: which body holds it, and that body's render
/// position as last seen, from which each frame's movement is measured.
#[derive(Clone, Copy, Debug, PartialEq, Eq, Structural, Default)]
pub struct PhysicsOrigin {
    pub body: Option<usize>,
    pub prev: Option<SpacePosition>,
}

/// `b` with its physics position moved by `-delta`.
pub open spec fn physics_shifted(b: SyncedBody, delta: Point) -> SyncedBody {
    SyncedBody { render: b.render, physics: world_vec(point_sub(b.physics@, delta)) }
}

/// `b` with its physics position set to where its render position stands
/// relative to the origin's render position `origin`.
pub open spec fn mirrored_to_physics(s: GridSettings, b: SyncedBody, origin: SpacePosition) -> SyncedBody {
    SyncedBody {
        render: b.render,
        physics: world_vec(point_sub(s.world_of_position(b.render), s.world_of_position(origin))),
    }
}

/// How far the physics side has moved `b` away from where its render position
/// stands relative to the origin's render position `origin`.
pub open spec fn physics_drift(s: GridSettings, b: SyncedBody, origin: SpacePosition) -> Point {
    point_sub(b.physics@, point_sub(s.world_of_position(b.render), s.world_of_position(origin)))
}

/// `b` with its render offset moved by its physics drift; its cell is kept.
pub open spec fn mirrored_to_render(s: GridSettings, b: SyncedBody, origin: SpacePosition) -> SyncedBody {
    let o = point_add(b.render.offset@, physics_drift(s, b, origin));
    SyncedBody {
        render: SpacePosition {
            cell: b.render.cell,
            offset: LocalOffset { x: o.0 as i64, y: o.1 as i64, z: o.2 as i64 },
        },
        physics: b.physics,
    }
}

/// `o + physics - expected` where it fits the `i64` range.
fn nudge_axis(o: i64, physics: i128, expected: i128) -> (r: Option<i64>)
    ensures
        r.is_some() <==> fits_i64(o + physics - expected),
        r matches Some(v) ==> v == o + physics - expected,
{
    let drift = match physics.checked_sub(expected) {
        Some(d) => d,
        None => return None,
    };
    match (o as i128).checked_add(drift) {
        Some(v) => {
            if i64::MIN as i128 <= v && v <= i64::MAX as i128 {
                Some(v as i64)
            } else {
                None
            }
        },
        None => None,
    }
}

impl PhysicsOrigin {
    /// No body holds the role yet.
    pub fn new() -> (r: PhysicsOrigin)
        ensures
            r.body is None,
            r.prev is None,
    {
        PhysicsOrigin { body: None, prev: None }
    }

    /// Hands the role to `body`; its movement is measured afresh.
    pub fn set_body(&mut self, body: usize)
        ensures
            final(self).body == Some(body),
            final(self).prev is None,
    {
        self.body = Some(body);
        self.prev = None;
    }

    /// The world movement of the origin since `prev`: what
    /// `sync_physics_origin` takes away from every other body.
    pub open spec fn origin_movement(s: GridSettings, current: SpacePosition, prev: SpacePosition) -> Point {
        point_sub(s.world_of_position(current), s.world_of_position(prev))
    }

    /// Whether shifting every body but `o` by `-delta` stays in the `i128` range.
    pub open spec fn shift_fits(bodies: Seq<SyncedBody>, o: int, delta: Point) -> bool {
        forall|j: int|
            0 <= j < bodies.len() && j != o ==> point_fits_i128(
                point_sub(#[trigger] bodies[j].physics@, delta),
            )
    }

    /// Moves the physics frame with the physics origin. The first time a body
    /// holds the role, its render position is only recorded and `Ok(None)`
    /// comes back. Afterwards the origin's movement since the recorded position
    /// is measured without forming absolute world points (non-carrying
    /// difference, then the world form), every other body's physics position
    /// loses it, the new position is recorded, and `Ok(Some(movement))` comes
    /// back.
    ///
    /// Fails with `MissingOrigin` where no body holds the role or its index is
    /// out of bounds, and with `OutOfRange` where a result leaves the integer
    /// types; nothing changes then.
    pub fn sync_physics_origin(
        &mut self,
        grid_settings: &GridSettings,
        bodies: &mut Vec<SyncedBody>,
    ) -> (r: Result<Option<WorldVec>, GridError>)
        requires
            grid_settings.wf(),
        ensures
            !names_index(old(self).body, old(bodies).len() as int) ==> {
                &&& r == Err::<Option<WorldVec>, GridError>(GridError::MissingOrigin)
                &&& *final(self) == *old(self)
                &&& final(bodies)@ == old(bodies)@
            },
            names_index(old(self).body, old(bodies).len() as int) ==> {
                let o = old(self).body.unwrap() as int;
                let current = old(bodies)[o].render;
                match old(self).prev {
                    None => {
                        &&& r == Ok::<Option<WorldVec>, GridError>(None)
                        &&& final(self).body == old(self).body
                        &&& final(self).prev == Some(current)
                        &&& final(bodies)@ == old(bodies)@
                    },
                    Some(prev) => {
                        let delta = Self::origin_movement(*grid_settings, current, prev);
                        let fits = current.sub_fits(prev) && Self::shift_fits(old(bodies)@, o, delta);
                        &&& fits ==> r == Ok::<Option<WorldVec>, GridError>(Some(world_vec(delta)))
                        &&& fits ==> final(self).body == old(self).body
                        &&& fits ==> final(self).prev == Some(current)
                        &&& fits ==> final(bodies).len() == old(bodies).len()
                        &&& fits ==> final(bodies)[o] == old(bodies)[o]
                        &&& fits ==> forall|j: int|
                            0 <= j < old(bodies).len() && j != o ==> #[trigger] final(bodies)[j]
                                == physics_shifted(old(bodies)[j], delta)
                        &&& !fits ==> r == Err::<Option<WorldVec>, GridError>(GridError::OutOfRange)
                        &&& !fits ==> *final(self) == *old(self)
                        &&& !fits ==> final(bodies)@ == old(bodies)@
                    },
                }
            },
    {
        let o = match self.body {
            Some(o) => o,
            None => return Err(GridError::MissingOrigin),
        };
        if o >= bodies.len() {
            return Err(GridError::MissingOrigin);
        }
        let current = bodies[o].render;
        let prev = match self.prev {
            Some(prev) => prev,
            None => {
                self.prev = Some(current);
                return Ok(None);
            },
        };
        let moved = match current.checked_sub(&prev) {
            Some(moved) => moved,
            None => return Err(GridError::OutOfRange),
        };
        let delta = grid_settings.to_world(&moved.cell, &moved.offset);
        proof {
            lemma_world_of_linear(*grid_settings, current.cell@, current.offset@, prev.cell@, prev.offset@);
        }
        let ghost d = delta@;
        assert(d == Self::origin_movement(*grid_settings, current, prev));
        let mut shifted: Vec<SyncedBody> = Vec::new();
        let mut i: usize = 0;
        while i < bodies.len()
            invariant
                bodies@ == old(bodies)@,
                *self == *old(self),
                self.body == Some(o),
                self.prev == Some(prev),
                current == bodies[o as int].render,
                current.sub_fits(prev),
                o < bodies.len(),
                d == delta@,
                d == Self::origin_movement(*grid_settings, current, prev),
                i <= bodies.len(),
                shifted.len() == i,
                forall|j: int| 0 <= j < i && j == o ==> #[trigger] shifted[j] == bodies[j],
                forall|j: int|
                    0 <= j < i && j != o ==> point_fits_i128(point_sub(#[trigger] bodies[j].physics@, d))
                        && shifted[j] == physics_shifted(bodies[j], d),
            decreases bodies.len() - i,
        {
            let b = bodies[i];
            if i == o {
                shifted.push(b);
            } else {
                match b.physics.checked_sub(&delta) {
                    Some(physics) => {
                        shifted.push(SyncedBody { render: b.render, physics });
                    },
                    None => {
                        assert(!point_fits_i128(point_sub(bodies[i as int].physics@, d)));
                        assert(!Self::shift_fits(old(bodies)@, o as int, d));
                        return Err(GridError::OutOfRange);
                    },
                }
            }
            i = i + 1;
        }
        *bodies = shifted;
        self.prev = Some(current);
        Ok(Some(delta))
    }

    /// Mirrors render positions into the physics frame: every body but the
    /// origin gets as physics position the world displacement of its render
    /// position from the origin's, formed from their non-carrying difference.
    ///
    /// Fails with `MissingOrigin` where no body holds the role or its index is
    /// out of bounds, and with `OutOfRange` where a difference leaves the
    /// `i64` range; nothing changes then.
    pub fn sync_transforms_to_physics(
        &self,
        grid_settings: &GridSettings,
        bodies: &mut Vec<SyncedBody>,
    ) -> (r: Result<(), GridError>)
        requires
            grid_settings.wf(),
        ensures
            !names_index(self.body, old(bodies).len() as int) ==> {
                &&& r == Err::<(), GridError>(GridError::MissingOrigin)
                &&& final(bodies)@ == old(bodies)@
            },
            names_index(self.body, old(bodies).len() as int) ==> {
                let o = self.body.unwrap() as int;
                let origin = old(bodies)[o].render;
                let fits = forall|j: int|
                    0 <= j < old(bodies).len() && j != o ==> (#[trigger] old(bodies)[j]).render.sub_fits(
                        origin,
                    );
                &&& fits ==> r == Ok::<(), GridError>(())
                &&& fits ==> final(bodies).len() == old(bodies).len()
                &&& fits ==> final(bodies)[o] == old(bodies)[o]
                &&& fits ==> forall|j: int|
                    0 <= j < old(bodies).len() && j != o ==> #[trigger] final(bodies)[j]
                        == mirrored_to_physics(*grid_settings, old(bodies)[j], origin)
                &&& !fits ==> r == Err::<(), GridError>(GridError::OutOfRange)
                &&& !fits ==> final(bodies)@ == old(bodies)@
            },
    {
        let o = match self.body {
            Some(o) => o,
            None => return Err(GridError::MissingOrigin),
        };
        if o >= bodies.len() {
            return Err(GridError::MissingOrigin);
        }
        let origin = bodies[o].render;
        let mut mirrored: Vec<SyncedBody> = Vec::new();
        let mut i: usize = 0;
        while i < bodies.len()
            invariant
                grid_settings.wf(),
                bodies@ == old(bodies)@,
                self.body == Some(o),
                o < bodies.len(),
                origin == bodies[o as int].render,
                i <= bodies.len(),
                mirrored.len() == i,
                forall|j: int| 0 <= j < i && j == o ==> #[trigger] mirrored[j] == bodies[j],
                forall|j: int|
                    0 <= j < i && j != o ==> (#[trigger] bodies[j]).render.sub_fits(origin)
                        && mirrored[j] == mirrored_to_physics(*grid_settings, bodies[j], origin),
            decreases bodies.len() - i,
        {
            let b = bodies[i];
            if i == o {
                mirrored.push(b);
            } else {
                match b.render.checked_sub(&origin) {
                    Some(rel) => {
                        let physics = grid_settings.to_world(&rel.cell, &rel.offset);
                        proof {
                            lemma_world_of_linear(
                                *grid_settings,
                                b.render.cell@,
                                b.render.offset@,
                                origin.cell@,
                                origin.offset@,
                            );
                        }
                        mirrored.push(SyncedBody { render: b.render, physics });
                    },
                    None => {
                        return Err(GridError::OutOfRange);
                    },
                }
            }
            i = i + 1;
        }
        *bodies = mirrored;
        Ok(())
    }

    /// Re-zeroes the physics frame on the origin after a solver step: every
    /// other body loses the origin's physics position, the origin's render
    /// offset gains it, and the origin's physics position becomes zero. The
    /// origin's new render position is recorded, so that the next
    /// `sync_physics_origin` does not take this movement away a second time.
    ///
    /// Fails with `MissingOrigin` where no body holds the role or its index is
    /// out of bounds, and with `OutOfRange` where a result leaves the integer
    /// types; nothing changes then.
    pub fn fix_origin_to_zero(&mut self, bodies: &mut Vec<SyncedBody>) -> (r: Result<(), GridError>)
        ensures
            !names_index(old(self).body, old(bodies).len() as int) ==> {
                &&& r == Err::<(), GridError>(GridError::MissingOrigin)
                &&& *final(self) == *old(self)
                &&& final(bodies)@ == old(bodies)@
            },
            names_index(old(self).body, old(bodies).len() as int) ==> {
                let o = old(self).body.unwrap() as int;
                let p0 = old(bodies)[o].physics@;
                let offset = point_add(old(bodies)[o].render.offset@, p0);
                let fits = point_fits_i64(offset) && Self::shift_fits(old(bodies)@, o, p0);
                &&& fits ==> r == Ok::<(), GridError>(())
                &&& fits ==> final(bodies).len() == old(bodies).len()
                &&& fits ==> final(bodies)[o].render.cell == old(bodies)[o].render.cell
                &&& fits ==> final(bodies)[o].render.offset@ == offset
                &&& fits ==> final(bodies)[o].physics@ == (0int, 0int, 0int)
                &&& fits ==> forall|j: int|
                    0 <= j < old(bodies).len() && j != o ==> #[trigger] final(bodies)[j]
                        == physics_shifted(old(bodies)[j], p0)
                &&& fits ==> final(self).body == old(self).body
                &&& fits ==> final(self).prev == Some(final(bodies)[o].render)
                &&& !fits ==> r == Err::<(), GridError>(GridError::OutOfRange)
                &&& !fits ==> *final(self) == *old(self)
                &&& !fits ==> final(bodies)@ == old(bodies)@
            },
    {
        let o = match self.body {
            Some(o) => o,
            None => return Err(GridError::MissingOrigin),
        };
        if o >= bodies.len() {
            return Err(GridError::MissingOrigin);
        }
        let origin = bodies[o];
        let p0 = origin.physics;
        let offset = match origin.render.offset.checked_add_wide(&p0) {
            Some(offset) => offset,
            None => return Err(GridError::OutOfRange),
        };
        let mut fixed: Vec<SyncedBody> = Vec::new();
        let mut i: usize = 0;
        while i < bodies.len()
            invariant
                bodies@ == old(bodies)@,
                *self == *old(self),
                self.body == Some(o),
                o < bodies.len(),
                origin == bodies[o as int],
                p0 == origin.physics,
                offset@ == point_add(origin.render.offset@, p0@),
                i <= bodies.len(),
                fixed.len() == i,
                forall|j: int|
                    0 <= j < i && j == o ==> (#[trigger] fixed[j]).render.cell == origin.render.cell
                        && fixed[j].render.offset == offset && fixed[j].physics@ == (0int, 0int, 0int),
                forall|j: int|
                    0 <= j < i && j != o ==> point_fits_i128(point_sub(#[trigger] bodies[j].physics@, p0@))
                        && fixed[j] == physics_shifted(bodies[j], p0@),
            decreases bodies.len() - i,
        {
            let b = bodies[i];
            if i == o {
                fixed.push(
                    SyncedBody {
                        render: SpacePosition { cell: b.render.cell, offset },
                        physics: WorldVec { x: 0, y: 0, z: 0 },
                    },
                );
            } else {
                match b.physics.checked_sub(&p0) {
                    Some(physics) => {
                        fixed.push(SyncedBody { render: b.render, physics });
                    },
                    None => {
                        assert(!Self::shift_fits(old(bodies)@, o as int, p0@));
                        return Err(GridError::OutOfRange);
                    },
                }
            }
            i = i + 1;
        }
        *bodies = fixed;
        self.prev = Some(SpacePosition { cell: origin.render.cell, offset });
        Ok(())
    }

    /// Mirrors the physics frame back into render positions after a solver
    /// step: every body's render offset moves by how far the solver has moved
    /// it from where its render position stood relative to the origin's (the
    /// origin's render position as it was before the pass). Cells are kept;
    /// carrying is left to the recenter pass.
    ///
    /// Fails with `MissingOrigin` where no body holds the role or its index is
    /// out of bounds, and with `OutOfRange` where a result leaves the integer
    /// types; nothing changes then.
    pub fn sync_physics_to_transforms(
        &self,
        grid_settings: &GridSettings,
        bodies: &mut Vec<SyncedBody>,
    ) -> (r: Result<(), GridError>)
        requires
            grid_settings.wf(),
        ensures
            !names_index(self.body, old(bodies).len() as int) ==> {
                &&& r == Err::<(), GridError>(GridError::MissingOrigin)
                &&& final(bodies)@ == old(bodies)@
            },
            names_index(self.body, old(bodies).len() as int) ==> {
                let o = self.body.unwrap() as int;
                let origin = old(bodies)[o].render;
                let fits = forall|j: int|
                    0 <= j < old(bodies).len() ==> {
                        &&& (#[trigger] old(bodies)[j]).render.sub_fits(origin)
                        &&& point_fits_i64(
                            point_add(
                                old(bodies)[j].render.offset@,
                                physics_drift(*grid_settings, old(bodies)[j], origin),
                            ),
                        )
                    };
                &&& fits ==> r == Ok::<(), GridError>(())
                &&& fits ==> final(bodies).len() == old(bodies).len()
                &&& fits ==> forall|j: int|
                    0 <= j < old(bodies).len() ==> #[trigger] final(bodies)[j] == mirrored_to_render(
                        *grid_settings,
                        old(bodies)[j],
                        origin,
                    )
                &&& fits ==> forall|j: int|
                    0 <= j < old(bodies).len() ==> grid_settings.world_of_position(
                        (#[trigger] final(bodies)[j]).render,
                    ) == point_add(grid_settings.world_of_position(origin), old(bodies)[j].physics@)
                &&& !fits ==> r == Err::<(), GridError>(GridError::OutOfRange)
                &&& !fits ==> final(bodies)@ == old(bodies)@
            },
    {
        let o = match self.body {
            Some(o) => o,
            None => return Err(GridError::MissingOrigin),
        };
        if o >= bodies.len() {
            return Err(GridError::MissingOrigin);
        }
        let origin = bodies[o].render;
        let mut mirrored: Vec<SyncedBody> = Vec::new();
        let mut i: usize = 0;
        while i < bodies.len()
            invariant
                grid_settings.wf(),
                bodies@ == old(bodies)@,
                self.body == Some(o),
                o < bodies.len(),
                origin == bodies[o as int].render,
                i <= bodies.len(),
                mirrored.len() == i,
                forall|j: int|
                    0 <= j < i ==> {
                        &&& (#[trigger] bodies[j]).render.sub_fits(origin)
                        &&& point_fits_i64(
                            point_add(
                                bodies[j].render.offset@,
                                physics_drift(*grid_settings, bodies[j], origin),
                            ),
                        )
                        &&& mirrored[j] == mirrored_to_render(*grid_settings, bodies[j], origin)
                        &&& grid_settings.world_of_position(mirrored[j].render) == point_add(
                            grid_settings.world_of_position(origin),
                            bodies[j].physics@,
                        )
                    },
            decreases bodies.len() - i,
        {
            let b = bodies[i];
            let rel = match b.render.checked_sub(&origin) {
                Some(rel) => rel,
                None => return Err(GridError::OutOfRange),
            };
            let expected = grid_settings.to_world(&rel.cell, &rel.offset);
            proof {
                lemma_world_of_linear(
                    *grid_settings,
                    b.render.cell@,
                    b.render.offset@,
                    origin.cell@,
                    origin.offset@,
                );
            }
            match (
                nudge_axis(b.render.offset.x, b.physics.x, expected.x),
                nudge_axis(b.render.offset.y, b.physics.y, expected.y),
                nudge_axis(b.render.offset.z, b.physics.z, expected.z),
            ) {
                (Some(x), Some(y), Some(z)) => {
                    let render = SpacePosition { cell: b.render.cell, offset: LocalOffset { x, y, z } };
                    let next = SyncedBody { render, physics: b.physics };
                    assert(next == mirrored_to_render(*grid_settings, b, origin));
                    proof {
                        lemma_world_of_linear(
                            *grid_settings,
                            b.render.cell@,
                            b.render.offset@,
                            (0int, 0int, 0int),
                            physics_drift(*grid_settings, b, origin),
                        );
                    }
                    mirrored.push(next);
                },
                _ => {
                    return Err(GridError::OutOfRange);
                },
            }
            i = i + 1;
        }
        *bodies = mirrored;
        Ok(())
    }
}

/// When the origin's render position is its recorded position plus a
/// displacement `moved` (non-carrying sum), `sync_physics_origin` moves every
/// other body's physics position by exactly minus the world form of `moved`.
pub proof fn lemma_origin_move_shifts_bodies(
    s: GridSettings,
    prev: SpacePosition,
    moved: SpacePosition,
    before: Seq<SyncedBody>,
    after: Seq<SyncedBody>,
    o: int,
)
    requires
        s.wf(),
        prev.add_fits(moved),
        0 <= o < before.len(),
        after.len() == before.len(),
        PhysicsOrigin::shift_fits(
            before,
            o,
            PhysicsOrigin::origin_movement(s, prev.plus(moved), prev),
        ),
        forall|j: int|
            0 <= j < before.len() && j != o ==> #[trigger] after[j] == physics_shifted(
                before[j],
                PhysicsOrigin::origin_movement(s, prev.plus(moved), prev),
            ),
    ensures
        forall|j: int|
            0 <= j < before.len() && j != o ==> (#[trigger] after[j]).physics@ == point_sub(
                before[j].physics@,
                s.world_of_position(moved),
            ),
{
    lemma_world_of_linear(s, prev.cell@, prev.offset@, moved.cell@, moved.offset@);
    assert forall|j: int| 0 <= j < before.len() && j != o implies (#[trigger] after[j]).physics@
        == point_sub(before[j].physics@, s.world_of_position(moved)) by {
        assert(point_fits_i128(point_sub(before[j].physics@, PhysicsOrigin::origin_movement(s, prev.plus(moved), prev))));
    }
}

} // verus!
