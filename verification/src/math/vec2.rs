//! Two-component integer vectors, used for positions and displacements.

use core::ops::{
    Add, AddAssign, Div, DivAssign, Index, IndexMut, Mul, MulAssign, Sub, SubAssign,
};
use vstd::prelude::*;
use vstd::std_specs::ops::{AddSpecImpl, DivSpecImpl, MulSpecImpl, SubSpecImpl};

verus! {

/// A vector of two `i32` components.
#[derive(Clone, Copy, Debug, PartialEq, Eq, Structural)]
pub struct Vec2 {
    pub x: i32,
    pub y: i32,
}

pub type Point2 = Vec2;

pub type Color2 = Vec2;

/// Whether `v` can be held in an `i32`.
pub open spec fn fits_i32(v: int) -> bool {
    i32::MIN <= v <= i32::MAX
}

/// The quotient of `a` by `b` rounded toward zero, as machine division rounds.
pub open spec fn trunc_div(a: int, b: int) -> int {
    if a >= 0 {
        a / b
    } else {
        -((-a) / b)
    }
}

/// Whether `a / b` is defined on `i32`: the divisor is not zero and the
/// quotient is not `-i32::MIN`.
pub open spec fn divisible_i32(a: i32, b: i32) -> bool {
    b != 0 && !(a == i32::MIN && b == -1)
}

impl Vec2 {
    pub fn new(e0: i32, e1: i32) -> (r: Vec2)
        ensures
            r == (Vec2 { x: e0, y: e1 }),
    {
        Vec2 { x: e0, y: e1 }
    }

    pub fn x(self) -> (r: i32)
        ensures
            r == self.x,
    {
        self.x
    }

    pub fn y(self) -> (r: i32)
        ensures
            r == self.y,
    {
        self.y
    }

    /// The component at `index`: `x` at 0, `y` at 1.
    pub open spec fn component(self, index: int) -> i32 {
        if index == 0 {
            self.x
        } else {
            self.y
        }
    }

    /// The vector with the component at `index` replaced by `value`.
    pub open spec fn with_component(self, index: int, value: i32) -> Vec2 {
        if index == 0 {
            Vec2 { x: value, y: self.y }
        } else {
            Vec2 { x: self.x, y: value }
        }
    }

    /// The sum of two vectors, component by component.
    pub open spec fn plus(self, other: Vec2) -> Vec2 {
        Vec2 { x: (self.x + other.x) as i32, y: (self.y + other.y) as i32 }
    }

    /// The difference of two vectors, component by component.
    pub open spec fn minus(self, other: Vec2) -> Vec2 {
        Vec2 { x: (self.x - other.x) as i32, y: (self.y - other.y) as i32 }
    }

    /// The vector with both components multiplied by `factor`.
    pub open spec fn scaled(self, factor: i32) -> Vec2 {
        Vec2 { x: (self.x * factor) as i32, y: (self.y * factor) as i32 }
    }

    /// The product of two vectors, component by component.
    pub open spec fn times(self, other: Vec2) -> Vec2 {
        Vec2 { x: (self.x * other.x) as i32, y: (self.y * other.y) as i32 }
    }

    /// The vector with both components divided by `divisor`, rounding toward zero.
    pub open spec fn divided(self, divisor: i32) -> Vec2 {
        Vec2 {
            x: trunc_div(self.x as int, divisor as int) as i32,
            y: trunc_div(self.y as int, divisor as int) as i32,
        }
    }

    /// Whether `self + other` stays within `i32` in both components.
    pub open spec fn can_add(self, other: Vec2) -> bool {
        fits_i32(self.x + other.x) && fits_i32(self.y + other.y)
    }

    /// Whether `self - other` stays within `i32` in both components.
    pub open spec fn can_sub(self, other: Vec2) -> bool {
        fits_i32(self.x - other.x) && fits_i32(self.y - other.y)
    }

    /// Whether `self * factor` stays within `i32` in both components.
    pub open spec fn can_scale(self, factor: i32) -> bool {
        fits_i32(self.x * factor) && fits_i32(self.y * factor)
    }

    /// Whether the component-wise product stays within `i32`.
    pub open spec fn can_mul(self, other: Vec2) -> bool {
        fits_i32(self.x * other.x) && fits_i32(self.y * other.y)
    }

    /// Whether both components can be divided by `divisor`.
    pub open spec fn can_div(self, divisor: i32) -> bool {
        divisible_i32(self.x, divisor) && divisible_i32(self.y, divisor)
    }
}

impl Index<usize> for Vec2 {
    type Output = i32;

    fn index(&self, index: usize) -> (r: &i32)
        ensures
            *r == self.component(index as int),
    {
        if index == 0 {
            &self.x
        } else {
            &self.y
        }
    }
}

impl vstd::std_specs::core::IndexSpecImpl<usize> for Vec2 {
    open spec fn index_req(&self, index: &usize) -> bool {
        *index < 2
    }
}

impl IndexMut<usize> for Vec2 {
    fn index_mut(&mut self, index: usize) -> (r: &mut i32)
        requires
            index < 2,
        ensures
            *r == old(self).component(index as int),
            *final(self) == old(self).with_component(index as int, *final(r)),
    {
        if index == 0 {
            &mut self.x
        } else {
            &mut self.y
        }
    }
}

impl Add for Vec2 {
    type Output = Vec2;

    fn add(self, other: Vec2) -> (r: Vec2) {
        Vec2 { x: self.x + other.x, y: self.y + other.y }
    }
}

impl AddSpecImpl for Vec2 {
    open spec fn obeys_add_spec() -> bool {
        true
    }

    open spec fn add_req(self, other: Vec2) -> bool {
        self.can_add(other)
    }

    open spec fn add_spec(self, other: Vec2) -> Vec2 {
        self.plus(other)
    }
}

impl AddAssign for Vec2 {
    fn add_assign(&mut self, other: Vec2)
        requires
            old(self).can_add(other),
        ensures
            *final(self) == old(self).plus(other),
    {
        *self = Vec2 { x: self.x + other.x, y: self.y + other.y };
    }
}

impl Sub for Vec2 {
    type Output = Vec2;

    fn sub(self, other: Vec2) -> (r: Vec2) {
        Vec2 { x: self.x - other.x, y: self.y - other.y }
    }
}

impl SubSpecImpl for Vec2 {
    open spec fn obeys_sub_spec() -> bool {
        true
    }

    open spec fn sub_req(self, other: Vec2) -> bool {
        self.can_sub(other)
    }

    open spec fn sub_spec(self, other: Vec2) -> Vec2 {
        self.minus(other)
    }
}

impl SubAssign for Vec2 {
    fn sub_assign(&mut self, other: Vec2)
        requires
            old(self).can_sub(other),
        ensures
            *final(self) == old(self).minus(other),
    {
        *self = Vec2 { x: self.x - other.x, y: self.y - other.y };
    }
}

impl Mul<i32> for Vec2 {
    type Output = Vec2;

    fn mul(self, other: i32) -> (r: Vec2) {
        Vec2 { x: self.x * other, y: self.y * other }
    }
}

impl MulSpecImpl<i32> for Vec2 {
    open spec fn obeys_mul_spec() -> bool {
        true
    }

    open spec fn mul_req(self, other: i32) -> bool {
        self.can_scale(other)
    }

    open spec fn mul_spec(self, other: i32) -> Vec2 {
        self.scaled(other)
    }
}

impl MulAssign<i32> for Vec2 {
    fn mul_assign(&mut self, other: i32)
        requires
            old(self).can_scale(other),
        ensures
            *final(self) == old(self).scaled(other),
    {
        *self = Vec2 { x: self.x * other, y: self.y * other };
    }
}

impl Mul<Vec2> for Vec2 {
    type Output = Vec2;

    fn mul(self, other: Vec2) -> (r: Vec2) {
        Vec2 { x: self.x * other.x, y: self.y * other.y }
    }
}

impl MulSpecImpl<Vec2> for Vec2 {
    open spec fn obeys_mul_spec() -> bool {
        true
    }

    open spec fn mul_req(self, other: Vec2) -> bool {
        self.can_mul(other)
    }

    open spec fn mul_spec(self, other: Vec2) -> Vec2 {
        self.times(other)
    }
}

impl MulAssign<Vec2> for Vec2 {
    fn mul_assign(&mut self, other: Vec2)
        requires
            old(self).can_mul(other),
        ensures
            *final(self) == old(self).times(other),
    {
        *self = Vec2 { x: self.x * other.x, y: self.y * other.y };
    }
}

impl Mul<Vec2> for i32 {
    type Output = Vec2;

    fn mul(self, other: Vec2) -> (r: Vec2) {
        Vec2 { x: other.x * self, y: other.y * self }
    }
}

impl MulSpecImpl<Vec2> for i32 {
    open spec fn obeys_mul_spec() -> bool {
        true
    }

    open spec fn mul_req(self, other: Vec2) -> bool {
        other.can_scale(self)
    }

    open spec fn mul_spec(self, other: Vec2) -> Vec2 {
        other.scaled(self)
    }
}

impl Div<i32> for Vec2 {
    type Output = Vec2;

    fn div(self, other: i32) -> (r: Vec2) {
        Vec2 { x: self.x / other, y: self.y / other }
    }
}

impl DivSpecImpl<i32> for Vec2 {
    open spec fn obeys_div_spec() -> bool {
        true
    }

    open spec fn div_req(self, other: i32) -> bool {
        self.can_div(other)
    }

    open spec fn div_spec(self, other: i32) -> Vec2 {
        self.divided(other)
    }
}

impl DivAssign<i32> for Vec2 {
    fn div_assign(&mut self, other: i32)
        requires
            old(self).can_div(other),
        ensures
            *final(self) == old(self).divided(other),
    {
        *self = Vec2 { x: self.x / other, y: self.y / other };
    }
}

} // verus!
