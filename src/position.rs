//! Positions as a grid cell plus a local offset.
use vstd::arithmetic::div_mod::{lemma_fundamental_div_mod, lemma_fundamental_div_mod_converse, lemma_mod_bound};
use vstd::prelude::*;
use crate::grid::{fits_i64, point_add, point_fits_i64, point_sub, GridCell, LocalOffset, Point, WorldVec};
use crate::settings::{lemma_split_carry, lemma_world_of_linear, world_axis, GridSettings};
use crate::smoothing::{abs, lag_scale, lag_scale_i128, lag_scale_iter, lemma_lag_converges, LAG_WEIGHT_ONE};
use vstd::arithmetic::power::pow;

verus! {

/// A position: the cell that holds it and where inside that cell it lies.
///
/// The offset is meant to stay within about one cell edge of zero, but the
/// plain `add` and `sub` below never carry between offset and cell; carrying
/// goes through the world form of `GridSettings`.
#[derive(Clone, Copy, Debug, PartialEq, Eq, Structural, Default)]
pub struct SpacePosition {
    pub cell: GridCell,
    pub offset: LocalOffset,
}

/// `s / e` lies between `-|s|` and `|s|`.
proof fn lemma_div_within(s: int, e: int)
    requires
        e > 0,
    ensures
        -s <= s / e <= s || s <= s / e <= -s,
{
    lemma_fundamental_div_mod(s, e);
    lemma_mod_bound(s, e);
    let q = s / e;
    let r = s % e;
    assert(-s <= q <= s || s <= q <= -s) by (nonlinear_arith)
        requires
            s == e * q + r,
            0 <= r < e,
            e >= 1,
    ;
}

/// Carrying sum on one axis: the cell and offset of
/// `world_axis(c1, o1, e) + world_axis(c2, o2, e)`.
fn carry_axis(c1: i64, o1: i64, c2: i64, o2: i64, e: i64) -> (r: Option<(i64, i64)>)
    requires
        e > 0,
    ensures
        ({
            let w = world_axis(c1 as int, o1 as int, e as int) + world_axis(
                c2 as int,
                o2 as int,
                e as int,
            );
            &&& r.is_some() <==> fits_i64(w / (e as int))
            &&& r matches Some(co) ==> co.0 == w / (e as int) && co.1 == w % (e as int)
        }),
{
    let ew = e as i128;
    let sum: i128 = o1 as i128 + o2 as i128;
    let ghost w = world_axis(c1 as int, o1 as int, e as int) + world_axis(
        c2 as int,
        o2 as int,
        e as int,
    );
    proof {
        lemma_div_within(sum as int, e as int);
        lemma_mod_bound(sum as int, e as int);
        lemma_fundamental_div_mod(sum as int, e as int);
        let q = (sum as int) / (e as int);
        let m = (sum as int) % (e as int);
        assert(w == (c1 + c2 + q) * e + m) by (nonlinear_arith)
            requires
                w == c1 * e + o1 + (c2 * e + o2),
                sum == o1 + o2,
                sum == e * q + m,
        ;
        lemma_fundamental_div_mod_converse(w, e as int, c1 + c2 + q, m);
    }
    match (sum.checked_div_euclid(ew), sum.checked_rem_euclid(ew)) {
        (Some(q), Some(m)) => {
            let c: i128 = c1 as i128 + c2 as i128 + q;
            if i64::MIN as i128 <= c && c <= i64::MAX as i128 {
                Some((c as i64, m as i64))
            } else {
                None
            }
        },
        _ => None,
    }
}

impl SpacePosition {
    /// The non-carrying sum, where it fits.
    pub open spec fn plus(self, rhs: SpacePosition) -> SpacePosition {
        SpacePosition {
            cell: GridCell {
                x: (self.cell.x + rhs.cell.x) as i64,
                y: (self.cell.y + rhs.cell.y) as i64,
                z: (self.cell.z + rhs.cell.z) as i64,
            },
            offset: LocalOffset {
                x: (self.offset.x + rhs.offset.x) as i64,
                y: (self.offset.y + rhs.offset.y) as i64,
                z: (self.offset.z + rhs.offset.z) as i64,
            },
        }
    }

    /// The displacement that the lag smoother keeps of `self - target`:
    /// each world component scaled by `lag_weight` toward zero.
    pub open spec fn lag_displacement(
        self,
        target: SpacePosition,
        lag_weight: int,
        s: GridSettings,
    ) -> Point {
        let d = point_sub(s.world_of_position(self), s.world_of_position(target));
        (lag_scale(d.0, lag_weight), lag_scale(d.1, lag_weight), lag_scale(d.2, lag_weight))
    }

    /// What `smooth` returns: `target` plus the split of the kept displacement,
    /// where every step fits the integer types.
    pub open spec fn smoothed(
        self,
        target: SpacePosition,
        lag_weight: int,
        s: GridSettings,
    ) -> Option<SpacePosition> {
        if !self.sub_fits(target) {
            None
        } else {
            match s.split(self.lag_displacement(target, lag_weight, s)) {
                Some(q) => if target.add_fits(q) {
                    Some(target.plus(q))
                } else {
                    None
                },
                None => None,
            }
        }
    }

    pub open spec fn add_fits(self, rhs: SpacePosition) -> bool {
        point_fits_i64(point_add(self.cell@, rhs.cell@)) && point_fits_i64(
            point_add(self.offset@, rhs.offset@),
        )
    }

    pub open spec fn sub_fits(self, rhs: SpacePosition) -> bool {
        point_fits_i64(point_sub(self.cell@, rhs.cell@)) && point_fits_i64(
            point_sub(self.offset@, rhs.offset@),
        )
    }

    /// Cells and offsets added separately, with no carry between them.
    pub fn checked_add(&self, rhs: &SpacePosition) -> (r: Option<SpacePosition>)
        ensures
            r.is_some() <==> self.add_fits(*rhs),
            r matches Some(p) ==> p.cell@ == point_add(self.cell@, rhs.cell@) && p.offset@
                == point_add(self.offset@, rhs.offset@),
    {
        match (self.cell.checked_add(&rhs.cell), self.offset.checked_add(&rhs.offset)) {
            (Some(cell), Some(offset)) => Some(SpacePosition { cell, offset }),
            _ => None,
        }
    }

    /// Cells and offsets subtracted separately, with no carry between them.
    pub fn checked_sub(&self, rhs: &SpacePosition) -> (r: Option<SpacePosition>)
        ensures
            r.is_some() <==> self.sub_fits(*rhs),
            r matches Some(p) ==> p.cell@ == point_sub(self.cell@, rhs.cell@) && p.offset@
                == point_sub(self.offset@, rhs.offset@),
    {
        match (self.cell.checked_sub(&rhs.cell), self.offset.checked_sub(&rhs.offset)) {
            (Some(cell), Some(offset)) => Some(SpacePosition { cell, offset }),
            _ => None,
        }
    }

    /// Non-carrying sum: `(c1, o1) + (c2, o2) = (c1 + c2, o1 + o2)`.
    pub fn add(&self, rhs: &SpacePosition) -> (r: SpacePosition)
        requires
            self.add_fits(*rhs),
        ensures
            r.cell@ == point_add(self.cell@, rhs.cell@),
            r.offset@ == point_add(self.offset@, rhs.offset@),
    {
        self.checked_add(rhs).unwrap()
    }

    /// Non-carrying difference: `(c1, o1) - (c2, o2) = (c1 - c2, o1 - o2)`.
    pub fn sub(&self, rhs: &SpacePosition) -> (r: SpacePosition)
        requires
            self.sub_fits(*rhs),
        ensures
            r.cell@ == point_sub(self.cell@, rhs.cell@),
            r.offset@ == point_sub(self.offset@, rhs.offset@),
    {
        self.checked_sub(rhs).unwrap()
    }

    /// Carrying sum: the world points of `self` and `rhs` added, then split
    /// into a cell and an offset in `[0, cell_edge_length)`. `None` where the
    /// cell of the sum does not fit the `i64` range.
    pub fn add_carrying(&self, rhs: &SpacePosition, grid_settings: &GridSettings) -> (r: Option<
        SpacePosition,
    >)
        requires
            grid_settings.wf(),
        ensures
            r == grid_settings.split(
                point_add(
                    grid_settings.world_of_position(*self),
                    grid_settings.world_of_position(*rhs),
                ),
            ),
    {
        let e = grid_settings.cell_edge_length;
        match (
            carry_axis(self.cell.x, self.offset.x, rhs.cell.x, rhs.offset.x, e),
            carry_axis(self.cell.y, self.offset.y, rhs.cell.y, rhs.offset.y, e),
            carry_axis(self.cell.z, self.offset.z, rhs.cell.z, rhs.offset.z, e),
        ) {
            (Some(x), Some(y), Some(z)) => Some(
                SpacePosition {
                    cell: GridCell { x: x.0, y: y.0, z: z.0 },
                    offset: LocalOffset { x: x.1, y: y.1, z: z.1 },
                },
            ),
            _ => None,
        }
    }

    /// Lag smoothing toward `new_position` with weight
    /// `lag_weight / LAG_WEIGHT_ONE`: the world displacement `self - new_position`
    /// is scaled toward zero, split into cell and offset, and added to
    /// `new_position`. `None` where a step leaves the integer types.
    pub fn smooth(
        &self,
        new_position: &SpacePosition,
        lag_weight: u16,
        grid_settings: &GridSettings,
    ) -> (r: Option<SpacePosition>)
        requires
            grid_settings.wf(),
        ensures
            r == self.smoothed(*new_position, lag_weight as int, *grid_settings),
            r matches Some(p) ==> {
                &&& point_sub(
                    grid_settings.world_of_position(p),
                    grid_settings.world_of_position(*new_position),
                ) == self.lag_displacement(*new_position, lag_weight as int, *grid_settings)
                &&& 0 <= p.offset.x - new_position.offset.x < grid_settings.cell_edge_length
                &&& 0 <= p.offset.y - new_position.offset.y < grid_settings.cell_edge_length
                &&& 0 <= p.offset.z - new_position.offset.z < grid_settings.cell_edge_length
            },
    {
        let ghost s = *grid_settings;
        let ghost t = self.lag_displacement(*new_position, lag_weight as int, s);
        let sub = match self.checked_sub(new_position) {
            Some(d) => d,
            None => return None,
        };
        let d = grid_settings.to_world(&sub.cell, &sub.offset);
        proof {
            lemma_world_of_linear(s, self.cell@, self.offset@, new_position.cell@, new_position.offset@);
        }
        let scaled = WorldVec {
            x: lag_scale_i128(d.x, lag_weight),
            y: lag_scale_i128(d.y, lag_weight),
            z: lag_scale_i128(d.z, lag_weight),
        };
        assert(scaled@ == t);
        let q = match grid_settings.from_world(&scaled) {
            Some(q) => q,
            None => return None,
        };
        proof {
            lemma_split_carry(s, t);
            lemma_world_of_linear(s, new_position.cell@, new_position.offset@, q.cell@, q.offset@);
        }
        new_position.checked_add(&q)
    }
}

/// A smoothed position lies at the kept displacement from the target.
proof fn lemma_smoothed_displacement(
    p: SpacePosition,
    target: SpacePosition,
    lag_weight: int,
    s: GridSettings,
)
    requires
        s.wf(),
        p.smoothed(target, lag_weight, s).is_some(),
    ensures
        point_sub(s.world_of_position(p.smoothed(target, lag_weight, s).unwrap()), s.world_of_position(target))
            == p.lag_displacement(target, lag_weight, s),
{
    let t = p.lag_displacement(target, lag_weight, s);
    let q = s.split(t).unwrap();
    lemma_split_carry(s, t);
    lemma_world_of_linear(s, target.cell@, target.offset@, q.cell@, q.offset@);
}

/// The displacement from the target after `i` smoothing steps is the first
/// displacement after `i` lag steps.
proof fn lemma_smoothing_steps(
    s: GridSettings,
    target: SpacePosition,
    lag_weight: int,
    steps: Seq<SpacePosition>,
    i: int,
)
    requires
        s.wf(),
        0 <= i < steps.len(),
        forall|j: int|
            0 <= j < steps.len() - 1 ==> #[trigger] steps[j].smoothed(target, lag_weight, s)
                == Some(steps[j + 1]),
    ensures
        ({
            let e0 = point_sub(s.world_of_position(steps[0]), s.world_of_position(target));
            let ei = point_sub(s.world_of_position(steps[i]), s.world_of_position(target));
            ei == (
                lag_scale_iter(e0.0, lag_weight, i as nat),
                lag_scale_iter(e0.1, lag_weight, i as nat),
                lag_scale_iter(e0.2, lag_weight, i as nat),
            )
        }),
    decreases i,
{
    if i > 0 {
        lemma_smoothing_steps(s, target, lag_weight, steps, i - 1);
        assert(steps[i - 1].smoothed(target, lag_weight, s) == Some(steps[i]));
        lemma_smoothed_displacement(steps[i - 1], target, lag_weight, s);
    }
}

/// Smoothing again and again toward a fixed target with weight
/// `w = lag_weight / LAG_WEIGHT_ONE` shrinks the world displacement from the
/// target geometrically: after `i` steps each component is at most `w^i` times
/// the first one in size.
pub proof fn lemma_smoothing_converges(
    s: GridSettings,
    target: SpacePosition,
    lag_weight: int,
    steps: Seq<SpacePosition>,
)
    requires
        s.wf(),
        0 <= lag_weight < LAG_WEIGHT_ONE,
        steps.len() >= 1,
        forall|j: int|
            0 <= j < steps.len() - 1 ==> #[trigger] steps[j].smoothed(target, lag_weight, s)
                == Some(steps[j + 1]),
    ensures
        forall|i: int|
            0 <= i < steps.len() ==> {
                let e0 = point_sub(s.world_of_position(steps[0]), s.world_of_position(target));
                let ei = point_sub(s.world_of_position(#[trigger] steps[i]), s.world_of_position(target));
                let n = i as nat;
                &&& abs(ei.0) * pow(LAG_WEIGHT_ONE as int, n) <= abs(e0.0) * pow(lag_weight, n)
                &&& abs(ei.1) * pow(LAG_WEIGHT_ONE as int, n) <= abs(e0.1) * pow(lag_weight, n)
                &&& abs(ei.2) * pow(LAG_WEIGHT_ONE as int, n) <= abs(e0.2) * pow(lag_weight, n)
            },
{
    assert forall|i: int| 0 <= i < steps.len() implies {
        let e0 = point_sub(s.world_of_position(steps[0]), s.world_of_position(target));
        let ei = point_sub(s.world_of_position(#[trigger] steps[i]), s.world_of_position(target));
        let n = i as nat;
        &&& abs(ei.0) * pow(LAG_WEIGHT_ONE as int, n) <= abs(e0.0) * pow(lag_weight, n)
        &&& abs(ei.1) * pow(LAG_WEIGHT_ONE as int, n) <= abs(e0.1) * pow(lag_weight, n)
        &&& abs(ei.2) * pow(LAG_WEIGHT_ONE as int, n) <= abs(e0.2) * pow(lag_weight, n)
    } by {
        let e0 = point_sub(s.world_of_position(steps[0]), s.world_of_position(target));
        lemma_smoothing_steps(s, target, lag_weight, steps, i);
        lemma_lag_converges(e0.0, lag_weight, i as nat);
        lemma_lag_converges(e0.1, lag_weight, i as nat);
        lemma_lag_converges(e0.2, lag_weight, i as nat);
    }
}

} // verus!
