//! The floating-origin recenter pass.
use vstd::arithmetic::div_mod::{lemma_fundamental_div_mod, lemma_mod_bound};
use vstd::prelude::*;
use crate::grid::{fits_i64, point_sub, GridCell, LocalOffset, Point};
use crate::position::SpacePosition;
use crate::settings::{GridError, GridSettings};

verus! {

/// `p` moved by `d` whole cells with its world point kept: the cell gains `d`
/// and the offset loses `d * cell_edge_length`.
pub open spec fn shifted(s: GridSettings, p: SpacePosition, d: Point) -> SpacePosition {
    let e = s.cell_edge_length as int;
    SpacePosition {
        cell: GridCell {
            x: (p.cell.x + d.0) as i64,
            y: (p.cell.y + d.1) as i64,
            z: (p.cell.z + d.2) as i64,
        },
        offset: LocalOffset {
            x: (p.offset.x - d.0 * e) as i64,
            y: (p.offset.y - d.1 * e) as i64,
            z: (p.offset.z - d.2 * e) as i64,
        },
    }
}

/// Whether `origin` names an index below `len`.
pub open spec fn names_index(origin: Option<usize>, len: int) -> bool {
    match origin {
        Some(o) => o < len,
        None => false,
    }
}

/// Whether moving `p` by `d` whole cells stays in the `i64` range.
pub open spec fn shift_fits(s: GridSettings, p: SpacePosition, d: Point) -> bool {
    let e = s.cell_edge_length as int;
    &&& fits_i64(p.cell.x + d.0)
    &&& fits_i64(p.cell.y + d.1)
    &&& fits_i64(p.cell.z + d.2)
    &&& fits_i64(p.offset.x - d.0 * e)
    &&& fits_i64(p.offset.y - d.1 * e)
    &&& fits_i64(p.offset.z - d.2 * e)
}

/// The whole cells that the recenter pass moves every position by: those held
/// in the origin's offset, counted by floor division.
pub open spec fn recenter_shift(s: GridSettings, origin: SpacePosition) -> Point {
    s.cell_containing(origin.offset@)
}

fn shift_axis(c: i64, o: i64, d: i64, e: i64) -> (r: Option<(i64, i64)>)
    requires
        e > 0,
        -0x8000_0000_0000_0000 <= d <= 0x7fff_ffff_ffff_ffff,
    ensures
        r.is_some() <==> (fits_i64(c + d) && fits_i64(o - d * e)),
        r matches Some(co) ==> co.0 == c + d && co.1 == o - d * e,
{
    proof {
        assert(-0x8000_0000_0000_0000 * 0x7fff_ffff_ffff_ffff <= d * e <= 0x7fff_ffff_ffff_ffff
            * 0x7fff_ffff_ffff_ffff) by (nonlinear_arith)
            requires
                i64::MIN <= d <= i64::MAX,
                0 < e <= i64::MAX,
        ;
    }
    let cell: i128 = c as i128 + d as i128;
    let offset: i128 = o as i128 - d as i128 * e as i128;
    if i64::MIN as i128 <= cell && cell <= i64::MAX as i128 && i64::MIN as i128 <= offset && offset
        <= i64::MAX as i128 {
        Some((cell as i64, offset as i64))
    } else {
        None
    }
}

/// Floor division of an offset by a positive edge.
fn whole_cells(o: i64, e: i64) -> (r: i64)
    requires
        e > 0,
    ensures
        r == (o as int) / (e as int),
{
    proof {
        lemma_fundamental_div_mod(o as int, e as int);
        lemma_mod_bound(o as int, e as int);
        let q = (o as int) / (e as int);
        assert(o <= q <= 0 || 0 <= q <= o) by (nonlinear_arith)
            requires
                o == e * q + (o as int) % (e as int),
                0 <= (o as int) % (e as int) < e,
                e >= 1,
        ;
    }
    o.checked_div_euclid(e).unwrap()
}

/// Recenters the grid on the floating origin `origin` (an index into
/// `positions`): every position moves by the whole cells held in the origin's
/// offset, its cell gaining them and its offset losing them, so that the
/// origin's offset lands in `[0, cell_edge_length)` and no world point moves.
///
/// Fails with `MissingOrigin` where no origin is given or the index is out of
/// bounds, and with `OutOfRange` where a moved position leaves the `i64`
/// range; `positions` is then left as it was.
pub fn recenter(
    grid_settings: &GridSettings,
    positions: &mut Vec<SpacePosition>,
    origin: Option<usize>,
) -> (r: Result<(), GridError>)
    requires
        grid_settings.wf(),
    ensures
        !names_index(origin, old(positions).len() as int) ==> {
            &&& r == Err::<(), GridError>(GridError::MissingOrigin)
            &&& final(positions)@ == old(positions)@
        },
        names_index(origin, old(positions).len() as int) ==> {
            let d = recenter_shift(*grid_settings, old(positions)[origin.unwrap() as int]);
            let fits = forall|j: int|
                0 <= j < old(positions).len() ==> shift_fits(
                    *grid_settings,
                    #[trigger] old(positions)[j],
                    d,
                );
            &&& fits ==> r == Ok::<(), GridError>(())
            &&& fits ==> final(positions).len() == old(positions).len()
            &&& fits ==> forall|j: int|
                0 <= j < old(positions).len() ==> #[trigger] final(positions)[j] == shifted(
                    *grid_settings,
                    old(positions)[j],
                    d,
                )
            &&& !fits ==> r == Err::<(), GridError>(GridError::OutOfRange)
            &&& !fits ==> final(positions)@ == old(positions)@
        },
{
    let o = match origin {
        Some(o) => o,
        None => return Err(GridError::MissingOrigin),
    };
    if o >= positions.len() {
        return Err(GridError::MissingOrigin);
    }
    assert(names_index(origin, positions.len() as int));
    let e = grid_settings.cell_edge_length;
    let origin_offset = positions[o].offset;
    let dx = whole_cells(origin_offset.x, e);
    let dy = whole_cells(origin_offset.y, e);
    let dz = whole_cells(origin_offset.z, e);
    let ghost d: Point = (dx as int, dy as int, dz as int);
    assert(d == recenter_shift(*grid_settings, positions[o as int]));
    let mut moved: Vec<SpacePosition> = Vec::new();
    let mut i: usize = 0;
    while i < positions.len()
        invariant
            grid_settings.wf(),
            e == grid_settings.cell_edge_length,
            d == (dx as int, dy as int, dz as int),
            positions@ == old(positions)@,
            names_index(origin, positions.len() as int),
            o == origin.unwrap(),
            d == recenter_shift(*grid_settings, positions[o as int]),
            i <= positions.len(),
            moved.len() == i,
            forall|j: int|
                0 <= j < i ==> shift_fits(*grid_settings, #[trigger] positions[j], d) && moved[j]
                    == shifted(*grid_settings, positions[j], d),
        decreases positions.len() - i,
    {
        let p = positions[i];
        match (
            shift_axis(p.cell.x, p.offset.x, dx, e),
            shift_axis(p.cell.y, p.offset.y, dy, e),
            shift_axis(p.cell.z, p.offset.z, dz, e),
        ) {
            (Some(x), Some(y), Some(z)) => {
                moved.push(
                    SpacePosition {
                        cell: GridCell { x: x.0, y: y.0, z: z.0 },
                        offset: LocalOffset { x: x.1, y: y.1, z: z.1 },
                    },
                );
            },
            _ => {
                assert(!shift_fits(*grid_settings, positions[i as int], d));
                return Err(GridError::OutOfRange);
            },
        }
        i = i + 1;
    }
    *positions = moved;
    Ok(())
}

/// After a recenter the origin's offset lies in `[0, cell_edge_length)` on
/// every axis, and the world displacement between any two positions is what
/// it was before.
pub proof fn lemma_recenter_invariant(
    s: GridSettings,
    before: Seq<SpacePosition>,
    after: Seq<SpacePosition>,
    origin: int,
)
    requires
        s.wf(),
        0 <= origin < before.len(),
        after.len() == before.len(),
        forall|j: int|
            0 <= j < before.len() ==> shift_fits(
                s,
                #[trigger] before[j],
                recenter_shift(s, before[origin]),
            ) && after[j] == shifted(s, before[j], recenter_shift(s, before[origin])),
    ensures
        0 <= after[origin].offset.x < s.cell_edge_length,
        0 <= after[origin].offset.y < s.cell_edge_length,
        0 <= after[origin].offset.z < s.cell_edge_length,
        forall|j: int, k: int|
            0 <= j < before.len() && 0 <= k < before.len() ==> point_sub(
                s.world_of_position(#[trigger] after[j]),
                s.world_of_position(#[trigger] after[k]),
            ) == point_sub(s.world_of_position(before[j]), s.world_of_position(before[k])),
{
    let d = recenter_shift(s, before[origin]);
    let e = s.cell_edge_length as int;
    let o = before[origin].offset;
    assert(shift_fits(s, before[origin], d));
    assert(d.0 * e == e * d.0 && d.1 * e == e * d.1 && d.2 * e == e * d.2) by (nonlinear_arith);
    lemma_fundamental_div_mod(o.x as int, e);
    lemma_fundamental_div_mod(o.y as int, e);
    lemma_fundamental_div_mod(o.z as int, e);
    lemma_mod_bound(o.x as int, e);
    lemma_mod_bound(o.y as int, e);
    lemma_mod_bound(o.z as int, e);
    assert forall|j: int| 0 <= j < before.len() implies s.world_of_position(#[trigger] after[j])
        == s.world_of_position(before[j]) by {
        lemma_shift_keeps_world(s, before[j], d);
    }
}

/// Moving a position by whole cells keeps its world point.
pub proof fn lemma_shift_keeps_world(s: GridSettings, p: SpacePosition, d: Point)
    requires
        shift_fits(s, p, d),
    ensures
        s.world_of_position(shifted(s, p, d)) == s.world_of_position(p),
{
    let e = s.cell_edge_length as int;
    assert((p.cell.x + d.0) * e + (p.offset.x - d.0 * e) == p.cell.x * e + p.offset.x)
        by (nonlinear_arith);
    assert((p.cell.y + d.1) * e + (p.offset.y - d.1 * e) == p.cell.y * e + p.offset.y)
        by (nonlinear_arith);
    assert((p.cell.z + d.2) * e + (p.offset.z - d.2 * e) == p.cell.z * e + p.offset.z)
        by (nonlinear_arith);
}

} // verus!
