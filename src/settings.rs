//! Grid configuration and the conversions between cell + offset and world form.
use vstd::arithmetic::div_mod::{lemma_fundamental_div_mod, lemma_mod_bound};
use vstd::prelude::*;
use crate::grid::{fits_i64, point_add, point_fits_i64, point_sub, GridCell, LocalOffset, Point, WorldVec};
use crate::position::SpacePosition;

verus! {

/// Errors of the configuration and of the per-frame passes.
#[derive(Clone, Copy, Debug, PartialEq, Eq, Structural)]
pub enum GridError {
    /// The cell edge length is not positive.
    InvalidCellEdge,
    /// No entity holds the origin role that the pass needs.
    MissingOrigin,
    /// A result does not fit the integer types of the model.
    OutOfRange,
}

/// Process-wide grid configuration: the edge length of one cell, in fine units.
#[derive(Clone, Copy, Debug, PartialEq, Eq, Structural)]
pub struct GridSettings {
    pub cell_edge_length: i64,
}

/// World coordinate on one axis of cell `c` and offset `o`, for edge `e`.
pub open spec fn world_axis(c: int, o: int, e: int) -> int {
    c * e + o
}

proof fn lemma_world_axis_bounds(c: i64, o: i64, e: i64)
    requires
        e > 0,
    ensures
        -0x4000_0000_0000_0000_8000_0000_0000_0000 <= world_axis(c as int, o as int, e as int)
            <= 0x4000_0000_0000_0000_0000_0000_0000_0000,
{
    assert(-0x8000_0000_0000_0000 * 0x7fff_ffff_ffff_ffff <= c * e <= 0x7fff_ffff_ffff_ffff
        * 0x7fff_ffff_ffff_ffff) by (nonlinear_arith)
        requires
            i64::MIN <= c <= i64::MAX,
            0 < e <= i64::MAX,
    ;
}

/// `v` split into the cell `v / e` (floor) and the offset `v % e`, in `[0, e)`.
fn split_axis(v: i128, e: i64) -> (r: Option<(i64, i64)>)
    requires
        e > 0,
    ensures
        r.is_some() <==> fits_i64((v as int) / (e as int)),
        r matches Some(co) ==> co.0 == (v as int) / (e as int) && co.1 == (v as int) % (e as int),
{
    let ew = e as i128;
    proof {
        lemma_mod_bound(v as int, e as int);
    }
    let c = v.checked_div_euclid(ew);
    let o = v.checked_rem_euclid(ew);
    match (c, o) {
        (Some(c), Some(o)) => {
            if i64::MIN as i128 <= c && c <= i64::MAX as i128 {
                Some((c as i64, o as i64))
            } else {
                None
            }
        },
        _ => None,
    }
}

impl GridSettings {
    pub open spec fn wf(&self) -> bool {
        self.cell_edge_length > 0
    }

    /// The exact world point of `cell` and `offset`: `cell * edge + offset`.
    pub open spec fn world_of(&self, cell: Point, offset: Point) -> Point {
        let e = self.cell_edge_length as int;
        (world_axis(cell.0, offset.0, e), world_axis(cell.1, offset.1, e), world_axis(cell.2, offset.2, e))
    }

    pub open spec fn world_of_position(&self, p: SpacePosition) -> Point {
        self.world_of(p.cell@, p.offset@)
    }

    /// The cell that holds `v`: floor division by the edge on each axis.
    pub open spec fn cell_containing(&self, v: Point) -> Point {
        let e = self.cell_edge_length as int;
        (v.0 / e, v.1 / e, v.2 / e)
    }

    /// Where `v` lies inside its cell: each component in `[0, edge)`.
    pub open spec fn offset_within(&self, v: Point) -> Point {
        let e = self.cell_edge_length as int;
        (v.0 % e, v.1 % e, v.2 % e)
    }

    /// `v` as a position, where its cell fits the `i64` range.
    pub open spec fn split(&self, v: Point) -> Option<SpacePosition> {
        let c = self.cell_containing(v);
        let o = self.offset_within(v);
        if point_fits_i64(c) {
            Some(
                SpacePosition {
                    cell: GridCell { x: c.0 as i64, y: c.1 as i64, z: c.2 as i64 },
                    offset: LocalOffset { x: o.0 as i64, y: o.1 as i64, z: o.2 as i64 },
                },
            )
        } else {
            None
        }
    }

    /// The exact world coordinate `cell * cell_edge_length + offset`.
    pub fn to_world(&self, cell: &GridCell, offset: &LocalOffset) -> (r: WorldVec)
        requires
            self.wf(),
        ensures
            r@ == self.world_of(cell@, offset@),
    {
        let e = self.cell_edge_length;
        proof {
            lemma_world_axis_bounds(cell.x, offset.x, e);
            lemma_world_axis_bounds(cell.y, offset.y, e);
            lemma_world_axis_bounds(cell.z, offset.z, e);
        }
        let ew = e as i128;
        WorldVec {
            x: cell.x as i128 * ew + offset.x as i128,
            y: cell.y as i128 * ew + offset.y as i128,
            z: cell.z as i128 * ew + offset.z as i128,
        }
    }

    /// Splits a world coordinate into the cell that holds it and the offset
    /// inside that cell, each offset component in `[0, cell_edge_length)`.
    /// `None` where the cell does not fit the `i64` range.
    pub fn from_world(&self, v: &WorldVec) -> (r: Option<SpacePosition>)
        requires
            self.wf(),
        ensures
            r == self.split(v@),
    {
        let e = self.cell_edge_length;
        match (split_axis(v.x, e), split_axis(v.y, e), split_axis(v.z, e)) {
            (Some(x), Some(y), Some(z)) => Some(
                SpacePosition {
                    cell: GridCell { x: x.0, y: y.0, z: z.0 },
                    offset: LocalOffset { x: x.1, y: y.1, z: z.1 },
                },
            ),
            _ => None,
        }
    }

    /// Settings for cells of edge `cell_edge_length`, which must be positive.
    pub fn new(cell_edge_length: i64) -> (r: Result<GridSettings, GridError>)
        ensures
            cell_edge_length > 0 ==> r == Ok::<GridSettings, GridError>(
                GridSettings { cell_edge_length },
            ),
            cell_edge_length <= 0 ==> r == Err::<GridSettings, GridError>(
                GridError::InvalidCellEdge,
            ),
    {
        if cell_edge_length > 0 {
            Ok(GridSettings { cell_edge_length })
        } else {
            Err(GridError::InvalidCellEdge)
        }
    }
}

/// The world form turns the non-carrying sum and difference of cells and
/// offsets into the sum and difference of world points.
pub proof fn lemma_world_of_linear(s: GridSettings, c1: Point, o1: Point, c2: Point, o2: Point)
    ensures
        s.world_of(point_add(c1, c2), point_add(o1, o2)) == point_add(
            s.world_of(c1, o1),
            s.world_of(c2, o2),
        ),
        s.world_of(point_sub(c1, c2), point_sub(o1, o2)) == point_sub(
            s.world_of(c1, o1),
            s.world_of(c2, o2),
        ),
{
    let e = s.cell_edge_length as int;
    assert((c1.0 + c2.0) * e == c1.0 * e + c2.0 * e) by (nonlinear_arith);
    assert((c1.1 + c2.1) * e == c1.1 * e + c2.1 * e) by (nonlinear_arith);
    assert((c1.2 + c2.2) * e == c1.2 * e + c2.2 * e) by (nonlinear_arith);
    assert((c1.0 - c2.0) * e == c1.0 * e - c2.0 * e) by (nonlinear_arith);
    assert((c1.1 - c2.1) * e == c1.1 * e - c2.1 * e) by (nonlinear_arith);
    assert((c1.2 - c2.2) * e == c1.2 * e - c2.2 * e) by (nonlinear_arith);
}

/// Splitting a world point and converting the parts back gives the point again.
pub proof fn lemma_split_round_trip(s: GridSettings, v: Point)
    requires
        s.wf(),
        s.split(v).is_some(),
    ensures
        s.world_of_position(s.split(v).unwrap()) == v,
{
    let e = s.cell_edge_length as int;
    lemma_fundamental_div_mod(v.0, e);
    lemma_fundamental_div_mod(v.1, e);
    lemma_fundamental_div_mod(v.2, e);
    lemma_mod_bound(v.0, e);
    lemma_mod_bound(v.1, e);
    lemma_mod_bound(v.2, e);
}

/// A split carries every whole cell into the cell index: each offset component
/// lies in `[0, cell_edge_length)`, and `cell * edge + offset` is the point.
pub proof fn lemma_split_carry(s: GridSettings, v: Point)
    requires
        s.wf(),
        s.split(v).is_some(),
    ensures
        ({
            let p = s.split(v).unwrap();
            let e = s.cell_edge_length as int;
            &&& 0 <= p.offset.x < e
            &&& 0 <= p.offset.y < e
            &&& 0 <= p.offset.z < e
            &&& s.world_of_position(p) == v
        }),
{
    lemma_split_round_trip(s, v);
    lemma_mod_bound(v.0, s.cell_edge_length as int);
    lemma_mod_bound(v.1, s.cell_edge_length as int);
    lemma_mod_bound(v.2, s.cell_edge_length as int);
}

} // verus!
