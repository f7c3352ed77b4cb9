//! Integer vector types: grid cells, local offsets and wide world vectors.
use vstd::prelude::*;

verus! {

/// A point or displacement of the mathematical integer space.
pub type Point = (int, int, int);

pub open spec fn point_add(a: Point, b: Point) -> Point {
    (a.0 + b.0, a.1 + b.1, a.2 + b.2)
}

pub open spec fn point_sub(a: Point, b: Point) -> Point {
    (a.0 - b.0, a.1 - b.1, a.2 - b.2)
}

pub open spec fn fits_i64(v: int) -> bool {
    i64::MIN <= v <= i64::MAX
}

pub open spec fn fits_i128(v: int) -> bool {
    i128::MIN <= v <= i128::MAX
}

pub open spec fn point_fits_i64(p: Point) -> bool {
    fits_i64(p.0) && fits_i64(p.1) && fits_i64(p.2)
}

pub open spec fn point_fits_i128(p: Point) -> bool {
    fits_i128(p.0) && fits_i128(p.1) && fits_i128(p.2)
}

/// Index of a coarse cell of the uniform grid.
#[derive(Clone, Copy, Debug, PartialEq, Eq, Structural, Default)]
pub struct GridCell {
    pub x: i64,
    pub y: i64,
    pub z: i64,
}

/// Offset of a point from the corner of its cell, in fine units.
#[derive(Clone, Copy, Debug, PartialEq, Eq, Structural, Default)]
pub struct LocalOffset {
    pub x: i64,
    pub y: i64,
    pub z: i64,
}

/// A wide, exact world or physics-frame vector, in fine units.
#[derive(Clone, Copy, Debug, PartialEq, Eq, Structural, Default)]
pub struct WorldVec {
    pub x: i128,
    pub y: i128,
    pub z: i128,
}

impl View for GridCell {
    type V = Point;

    open spec fn view(&self) -> Point {
        (self.x as int, self.y as int, self.z as int)
    }
}

impl View for LocalOffset {
    type V = Point;

    open spec fn view(&self) -> Point {
        (self.x as int, self.y as int, self.z as int)
    }
}

impl View for WorldVec {
    type V = Point;

    open spec fn view(&self) -> Point {
        (self.x as int, self.y as int, self.z as int)
    }
}

fn checked_add_i64(a: i64, b: i64) -> (r: Option<i64>)
    ensures
        r == (if fits_i64(a + b) { Some((a + b) as i64) } else { None::<i64> }),
{
    a.checked_add(b)
}

fn checked_sub_i64(a: i64, b: i64) -> (r: Option<i64>)
    ensures
        r == (if fits_i64(a - b) { Some((a - b) as i64) } else { None::<i64> }),
{
    a.checked_sub(b)
}

impl GridCell {
    pub fn new(x: i64, y: i64, z: i64) -> (r: GridCell)
        ensures
            r@ == (x as int, y as int, z as int),
    {
        GridCell { x, y, z }
    }

    /// Component-wise sum, or `None` where a component leaves the `i64` range.
    pub fn checked_add(&self, rhs: &GridCell) -> (r: Option<GridCell>)
        ensures
            point_fits_i64(point_add(self@, rhs@)) <==> r.is_some(),
            r matches Some(c) ==> c@ == point_add(self@, rhs@),
    {
        let x = checked_add_i64(self.x, rhs.x);
        let y = checked_add_i64(self.y, rhs.y);
        let z = checked_add_i64(self.z, rhs.z);
        match (x, y, z) {
            (Some(x), Some(y), Some(z)) => Some(GridCell { x, y, z }),
            _ => None,
        }
    }

    /// Component-wise difference, or `None` where a component leaves the `i64` range.
    pub fn checked_sub(&self, rhs: &GridCell) -> (r: Option<GridCell>)
        ensures
            point_fits_i64(point_sub(self@, rhs@)) <==> r.is_some(),
            r matches Some(c) ==> c@ == point_sub(self@, rhs@),
    {
        let x = checked_sub_i64(self.x, rhs.x);
        let y = checked_sub_i64(self.y, rhs.y);
        let z = checked_sub_i64(self.z, rhs.z);
        match (x, y, z) {
            (Some(x), Some(y), Some(z)) => Some(GridCell { x, y, z }),
            _ => None,
        }
    }
}

impl LocalOffset {
    pub fn new(x: i64, y: i64, z: i64) -> (r: LocalOffset)
        ensures
            r@ == (x as int, y as int, z as int),
    {
        LocalOffset { x, y, z }
    }

    /// Component-wise sum, or `None` where a component leaves the `i64` range.
    pub fn checked_add(&self, rhs: &LocalOffset) -> (r: Option<LocalOffset>)
        ensures
            point_fits_i64(point_add(self@, rhs@)) <==> r.is_some(),
            r matches Some(o) ==> o@ == point_add(self@, rhs@),
    {
        let x = checked_add_i64(self.x, rhs.x);
        let y = checked_add_i64(self.y, rhs.y);
        let z = checked_add_i64(self.z, rhs.z);
        match (x, y, z) {
            (Some(x), Some(y), Some(z)) => Some(LocalOffset { x, y, z }),
            _ => None,
        }
    }

    /// Component-wise difference, or `None` where a component leaves the `i64` range.
    pub fn checked_sub(&self, rhs: &LocalOffset) -> (r: Option<LocalOffset>)
        ensures
            point_fits_i64(point_sub(self@, rhs@)) <==> r.is_some(),
            r matches Some(o) ==> o@ == point_sub(self@, rhs@),
    {
        let x = checked_sub_i64(self.x, rhs.x);
        let y = checked_sub_i64(self.y, rhs.y);
        let z = checked_sub_i64(self.z, rhs.z);
        match (x, y, z) {
            (Some(x), Some(y), Some(z)) => Some(LocalOffset { x, y, z }),
            _ => None,
        }
    }
}

impl LocalOffset {
    /// Component-wise sum with a wide vector, or `None` where a component
    /// leaves the `i64` range.
    pub fn checked_add_wide(&self, rhs: &WorldVec) -> (r: Option<LocalOffset>)
        ensures
            point_fits_i64(point_add(self@, rhs@)) <==> r.is_some(),
            r matches Some(o) ==> o@ == point_add(self@, rhs@),
    {
        let x = wide_add_i64(self.x, rhs.x);
        let y = wide_add_i64(self.y, rhs.y);
        let z = wide_add_i64(self.z, rhs.z);
        match (x, y, z) {
            (Some(x), Some(y), Some(z)) => Some(LocalOffset { x, y, z }),
            _ => None,
        }
    }
}

fn wide_add_i64(a: i64, b: i128) -> (r: Option<i64>)
    ensures
        r == (if fits_i64(a + b) { Some((a + b) as i64) } else { None::<i64> }),
{
    match (a as i128).checked_add(b) {
        Some(v) => {
            if i64::MIN as i128 <= v && v <= i64::MAX as i128 {
                Some(v as i64)
            } else {
                None
            }
        },
        None => None,
    }
}

impl WorldVec {
    pub fn new(x: i128, y: i128, z: i128) -> (r: WorldVec)
        ensures
            r@ == (x as int, y as int, z as int),
    {
        WorldVec { x, y, z }
    }

    /// Component-wise difference, or `None` where a component leaves the `i128` range.
    pub fn checked_sub(&self, rhs: &WorldVec) -> (r: Option<WorldVec>)
        ensures
            point_fits_i128(point_sub(self@, rhs@)) <==> r.is_some(),
            r matches Some(v) ==> v@ == point_sub(self@, rhs@),
    {
        match (self.x.checked_sub(rhs.x), self.y.checked_sub(rhs.y), self.z.checked_sub(rhs.z)) {
            (Some(x), Some(y), Some(z)) => Some(WorldVec { x, y, z }),
            _ => None,
        }
    }
}

/// The wide vector of a point that fits the `i128` range.
pub open spec fn world_vec(p: Point) -> WorldVec {
    WorldVec { x: p.0 as i128, y: p.1 as i128, z: p.2 as i128 }
}

} // verus!
