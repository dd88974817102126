//! Two-dimensional vectors over integer coordinates.

use vstd::prelude::*;
use vstd::std_specs::ops::{AddSpecImpl, MulSpecImpl, SubSpecImpl};

verus! {

/// A pair of coordinates.
#[derive(Debug, PartialEq, Eq, Clone, Copy, Hash, Structural)]
pub struct Vector2D<T> {
    pub x: T,
    pub y: T,
}

impl<T> Vector2D<T> {
    pub fn new(x: T, y: T) -> (v: Self)
        ensures
            v.x == x,
            v.y == y,
    {
        Self { x, y }
    }
}

impl core::ops::Add for Vector2D<i32> {
    type Output = Self;

    /// Componentwise sum.
    fn add(self, rhs: Self) -> (sum: Self) {
        Self { x: self.x + rhs.x, y: self.y + rhs.y }
    }
}

impl AddSpecImpl for Vector2D<i32> {
    open spec fn obeys_add_spec() -> bool {
        true
    }

    open spec fn add_req(self, rhs: Self) -> bool {
        &&& i32::MIN <= self.x + rhs.x <= i32::MAX
        &&& i32::MIN <= self.y + rhs.y <= i32::MAX
    }

    open spec fn add_spec(self, rhs: Self) -> Self {
        Vector2D { x: (self.x + rhs.x) as i32, y: (self.y + rhs.y) as i32 }
    }
}

impl core::ops::Sub for Vector2D<i32> {
    type Output = Self;

    /// Componentwise difference.
    fn sub(self, rhs: Self) -> (difference: Self) {
        Self { x: self.x - rhs.x, y: self.y - rhs.y }
    }
}

impl SubSpecImpl for Vector2D<i32> {
    open spec fn obeys_sub_spec() -> bool {
        true
    }

    open spec fn sub_req(self, rhs: Self) -> bool {
        &&& i32::MIN <= self.x - rhs.x <= i32::MAX
        &&& i32::MIN <= self.y - rhs.y <= i32::MAX
    }

    open spec fn sub_spec(self, rhs: Self) -> Self {
        Vector2D { x: (self.x - rhs.x) as i32, y: (self.y - rhs.y) as i32 }
    }
}

impl core::ops::Mul for Vector2D<i32> {
    type Output = i32;

    /// Dot product.
    fn mul(self, rhs: Self) -> (dot: i32) {
        self.x * rhs.x + self.y * rhs.y
    }
}

impl MulSpecImpl for Vector2D<i32> {
    open spec fn obeys_mul_spec() -> bool {
        true
    }

    open spec fn mul_req(self, rhs: Self) -> bool {
        &&& i32::MIN <= self.x * rhs.x <= i32::MAX
        &&& i32::MIN <= self.y * rhs.y <= i32::MAX
        &&& i32::MIN <= self.x * rhs.x + self.y * rhs.y <= i32::MAX
    }

    open spec fn mul_spec(self, rhs: Self) -> i32 {
        (self.x * rhs.x + self.y * rhs.y) as i32
    }
}

impl core::ops::Add for Vector2D<usize> {
    type Output = Self;

    /// Componentwise sum.
    fn add(self, rhs: Self) -> (sum: Self) {
        Self { x: self.x + rhs.x, y: self.y + rhs.y }
    }
}

impl AddSpecImpl for Vector2D<usize> {
    open spec fn obeys_add_spec() -> bool {
        true
    }

    open spec fn add_req(self, rhs: Self) -> bool {
        &&& usize::MIN <= self.x + rhs.x <= usize::MAX
        &&& usize::MIN <= self.y + rhs.y <= usize::MAX
    }

    open spec fn add_spec(self, rhs: Self) -> Self {
        Vector2D { x: (self.x + rhs.x) as usize, y: (self.y + rhs.y) as usize }
    }
}

impl core::ops::Sub for Vector2D<usize> {
    type Output = Self;

    /// Componentwise difference.
    fn sub(self, rhs: Self) -> (difference: Self) {
        Self { x: self.x - rhs.x, y: self.y - rhs.y }
    }
}

impl SubSpecImpl for Vector2D<usize> {
    open spec fn obeys_sub_spec() -> bool {
        true
    }

    open spec fn sub_req(self, rhs: Self) -> bool {
        &&& usize::MIN <= self.x - rhs.x <= usize::MAX
        &&& usize::MIN <= self.y - rhs.y <= usize::MAX
    }

    open spec fn sub_spec(self, rhs: Self) -> Self {
        Vector2D { x: (self.x - rhs.x) as usize, y: (self.y - rhs.y) as usize }
    }
}

impl core::ops::Mul for Vector2D<usize> {
    type Output = usize;

    /// Dot product.
    fn mul(self, rhs: Self) -> (dot: usize) {
        self.x * rhs.x + self.y * rhs.y
    }
}

impl MulSpecImpl for Vector2D<usize> {
    open spec fn obeys_mul_spec() -> bool {
        true
    }

    open spec fn mul_req(self, rhs: Self) -> bool {
        &&& usize::MIN <= self.x * rhs.x <= usize::MAX
        &&& usize::MIN <= self.y * rhs.y <= usize::MAX
        &&& usize::MIN <= self.x * rhs.x + self.y * rhs.y <= usize::MAX
    }

    open spec fn mul_spec(self, rhs: Self) -> usize {
        (self.x * rhs.x + self.y * rhs.y) as usize
    }
}

} // verus!
