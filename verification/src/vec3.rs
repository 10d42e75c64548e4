//! Exact integer 3-vectors: displacement and position values in the voxel
//! grid. Componentwise arithmetic, dot product and Manhattan magnitude.

use vstd::prelude::*;

verus! {

/// A point or displacement in the block grid, with signed integer components.
#[derive(PartialEq, Eq, Structural, Clone, Copy, Hash, Debug)]
pub struct Vec3(pub i32, pub i32, pub i32);

/// Absolute value of a mathematical integer.
pub open spec fn abs_i(x: int) -> int {
    if x >= 0 { x } else { -x }
}

/// Componentwise sum; exact whenever each component sum fits the machine
/// integer.
pub open spec fn spec_add(a: Vec3, b: Vec3) -> Vec3 {
    Vec3((a.0 + b.0) as i32, (a.1 + b.1) as i32, (a.2 + b.2) as i32)
}

/// Componentwise difference; exact whenever each component difference fits
/// the machine integer.
pub open spec fn spec_sub(a: Vec3, b: Vec3) -> Vec3 {
    Vec3((a.0 - b.0) as i32, (a.1 - b.1) as i32, (a.2 - b.2) as i32)
}

impl Vec3 {
    pub open spec fn manhattan(self) -> int {
        abs_i(self.0 as int) + abs_i(self.1 as int) + abs_i(self.2 as int)
    }

    pub fn from_array(arr: [i32; 3]) -> (r: Self)
        ensures
            r == (Vec3(arr[0], arr[1], arr[2])),
    {
        Vec3(arr[0], arr[1], arr[2])
    }

    pub fn new(x: i32, y: i32, z: i32) -> (r: Self)
        ensures
            r == (Vec3(x, y, z)),
    {
        Vec3(x, y, z)
    }

    pub fn zero() -> (r: Self)
        ensures
            r == (Vec3(0, 0, 0)),
    {
        Vec3(0, 0, 0)
    }

    pub fn eq_v(&self, rhs: &Self) -> (r: bool)
        ensures
            r == (*self == *rhs),
    {
        self.0 == rhs.0 && self.1 == rhs.1 && self.2 == rhs.2
    }

    pub fn dot(&self, rhs: &Self) -> (r: i32)
        requires
            i32::MIN <= self.0 * rhs.0 <= i32::MAX,
            i32::MIN <= self.1 * rhs.1 <= i32::MAX,
            i32::MIN <= self.2 * rhs.2 <= i32::MAX,
            i32::MIN <= self.0 * rhs.0 + self.1 * rhs.1 <= i32::MAX,
            i32::MIN <= self.0 * rhs.0 + self.1 * rhs.1 + self.2 * rhs.2 <= i32::MAX,
        ensures
            r == self.0 * rhs.0 + self.1 * rhs.1 + self.2 * rhs.2,
    {
        self.0 * rhs.0 + self.1 * rhs.1 + self.2 * rhs.2
    }

    pub fn abs_sum(&self) -> (r: i32)
        requires
            self.manhattan() <= i32::MAX,
        ensures
            r == self.manhattan(),
    {
        (if self.0 >= 0 { self.0 } else { -self.0 })
            + (if self.1 >= 0 { self.1 } else { -self.1 })
            + (if self.2 >= 0 { self.2 } else { -self.2 })
    }

    /// Manhattan magnitude, total: computed in a wide integer.
    pub fn manhattan_u64(&self) -> (r: u64)
        ensures
            r == self.manhattan(),
    {
        let x = if self.0 >= 0 { self.0 as i64 } else { -(self.0 as i64) };
        let y = if self.1 >= 0 { self.1 as i64 } else { -(self.1 as i64) };
        let z = if self.2 >= 0 { self.2 as i64 } else { -(self.2 as i64) };
        (x + y + z) as u64
    }

    pub fn add(&self, rhs: &Self) -> (r: Self)
        requires
            i32::MIN <= self.0 + rhs.0 <= i32::MAX,
            i32::MIN <= self.1 + rhs.1 <= i32::MAX,
            i32::MIN <= self.2 + rhs.2 <= i32::MAX,
        ensures
            r.0 == self.0 + rhs.0,
            r.1 == self.1 + rhs.1,
            r.2 == self.2 + rhs.2,
    {
        Vec3(self.0 + rhs.0, self.1 + rhs.1, self.2 + rhs.2)
    }

    pub fn sub(&self, rhs: &Self) -> (r: Self)
        requires
            i32::MIN <= self.0 - rhs.0 <= i32::MAX,
            i32::MIN <= self.1 - rhs.1 <= i32::MAX,
            i32::MIN <= self.2 - rhs.2 <= i32::MAX,
        ensures
            r.0 == self.0 - rhs.0,
            r.1 == self.1 - rhs.1,
            r.2 == self.2 - rhs.2,
    {
        Vec3(self.0 - rhs.0, self.1 - rhs.1, self.2 - rhs.2)
    }

    pub fn neg(&self) -> (r: Self)
        requires
            self.0 > i32::MIN,
            self.1 > i32::MIN,
            self.2 > i32::MIN,
        ensures
            r.0 == -self.0,
            r.1 == -self.1,
            r.2 == -self.2,
    {
        Vec3(-self.0, -self.1, -self.2)
    }

    pub fn add_assign(&mut self, rhs: &Self)
        requires
            i32::MIN <= old(self).0 + rhs.0 <= i32::MAX,
            i32::MIN <= old(self).1 + rhs.1 <= i32::MAX,
            i32::MIN <= old(self).2 + rhs.2 <= i32::MAX,
        ensures
            final(self).0 == old(self).0 + rhs.0,
            final(self).1 == old(self).1 + rhs.1,
            final(self).2 == old(self).2 + rhs.2,
    {
        self.0 = self.0 + rhs.0;
        self.1 = self.1 + rhs.1;
        self.2 = self.2 + rhs.2;
    }

    pub fn sub_assign(&mut self, rhs: &Self)
        requires
            i32::MIN <= old(self).0 - rhs.0 <= i32::MAX,
            i32::MIN <= old(self).1 - rhs.1 <= i32::MAX,
            i32::MIN <= old(self).2 - rhs.2 <= i32::MAX,
        ensures
            final(self).0 == old(self).0 - rhs.0,
            final(self).1 == old(self).1 - rhs.1,
            final(self).2 == old(self).2 - rhs.2,
    {
        self.0 = self.0 - rhs.0;
        self.1 = self.1 - rhs.1;
        self.2 = self.2 - rhs.2;
    }
}

} // verus!
