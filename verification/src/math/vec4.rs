//! Four-component integer vectors, used for colours.

use crate::math::vec2::{divisible_i32, fits_i32, trunc_div};
use core::ops::{
    Add, AddAssign, Div, DivAssign, Index, IndexMut, Mul, MulAssign, Sub, SubAssign,
};
use vstd::prelude::*;
use vstd::std_specs::ops::{AddSpecImpl, DivSpecImpl, MulSpecImpl, SubSpecImpl};

verus! {

/// A vector of four `i32` components. As a colour it holds red, green, blue
/// and alpha, in that order; an alpha of zero means fully transparent, any
/// other alpha fully opaque.
#[derive(Clone, Copy, Debug, PartialEq, Eq, Structural)]
pub struct Vec4 {
    pub x: i32,
    pub y: i32,
    pub z: i32,
    pub w: i32,
}

pub type Point4 = Vec4;

pub type Color4 = Vec4;

impl Vec4 {
    pub fn new(e0: i32, e1: i32, e2: i32, e3: i32) -> (r: Vec4)
        ensures
            r == (Vec4 { x: e0, y: e1, z: e2, w: e3 }),
    {
        Vec4 { x: e0, y: e1, z: e2, w: e3 }
    }

    pub fn x(self) -> (r: i32)
        ensures
            r == self.x,
    {
        self.x
    }

    pub fn y(self) -> (r: i32)
        ensures
            r == self.y,
    {
        self.y
    }

    pub fn z(self) -> (r: i32)
        ensures
            r == self.z,
    {
        self.z
    }

    pub fn w(self) -> (r: i32)
        ensures
            r == self.w,
    {
        self.w
    }

    /// The component at `index`: `x` at 0, `y` at 1, `z` at 2, `w` at 3.
    pub open spec fn component(self, index: int) -> i32 {
        if index == 0 {
            self.x
        } else if index == 1 {
            self.y
        } else if index == 2 {
            self.z
        } else {
            self.w
        }
    }

    /// The vector with the component at `index` replaced by `value`.
    pub open spec fn with_component(self, index: int, value: i32) -> Vec4 {
        if index == 0 {
            Vec4 { x: value, y: self.y, z: self.z, w: self.w }
        } else if index == 1 {
            Vec4 { x: self.x, y: value, z: self.z, w: self.w }
        } else if index == 2 {
            Vec4 { x: self.x, y: self.y, z: value, w: self.w }
        } else {
            Vec4 { x: self.x, y: self.y, z: self.z, w: value }
        }
    }

    /// The sum of two vectors, component by component.
    pub open spec fn plus(self, other: Vec4) -> Vec4 {
        Vec4 {
            x: (self.x + other.x) as i32,
            y: (self.y + other.y) as i32,
            z: (self.z + other.z) as i32,
            w: (self.w + other.w) as i32,
        }
    }

    /// The difference of two vectors, component by component.
    pub open spec fn minus(self, other: Vec4) -> Vec4 {
        Vec4 {
            x: (self.x - other.x) as i32,
            y: (self.y - other.y) as i32,
            z: (self.z - other.z) as i32,
            w: (self.w - other.w) as i32,
        }
    }

    /// The vector with every component multiplied by `factor`.
    pub open spec fn scaled(self, factor: i32) -> Vec4 {
        Vec4 {
            x: (self.x * factor) as i32,
            y: (self.y * factor) as i32,
            z: (self.z * factor) as i32,
            w: (self.w * factor) as i32,
        }
    }

    /// The product of two vectors, component by component.
    pub open spec fn times(self, other: Vec4) -> Vec4 {
        Vec4 {
            x: (self.x * other.x) as i32,
            y: (self.y * other.y) as i32,
            z: (self.z * other.z) as i32,
            w: (self.w * other.w) as i32,
        }
    }

    /// The vector with every component divided by `divisor`, rounding toward zero.
    pub open spec fn divided(self, divisor: i32) -> Vec4 {
        Vec4 {
            x: trunc_div(self.x as int, divisor as int) as i32,
            y: trunc_div(self.y as int, divisor as int) as i32,
            z: trunc_div(self.z as int, divisor as int) as i32,
            w: trunc_div(self.w as int, divisor as int) as i32,
        }
    }

    /// Whether `self + other` stays within `i32` in every component.
    pub open spec fn can_add(self, other: Vec4) -> bool {
        &&& fits_i32(self.x + other.x)
        &&& fits_i32(self.y + other.y)
        &&& fits_i32(self.z + other.z)
        &&& fits_i32(self.w + other.w)
    }

    /// Whether `self - other` stays within `i32` in every component.
    pub open spec fn can_sub(self, other: Vec4) -> bool {
        &&& fits_i32(self.x - other.x)
        &&& fits_i32(self.y - other.y)
        &&& fits_i32(self.z - other.z)
        &&& fits_i32(self.w - other.w)
    }

    /// Whether `self * factor` stays within `i32` in every component.
    pub open spec fn can_scale(self, factor: i32) -> bool {
        &&& fits_i32(self.x * factor)
        &&& fits_i32(self.y * factor)
        &&& fits_i32(self.z * factor)
        &&& fits_i32(self.w * factor)
    }

    /// Whether the component-wise product stays within `i32`.
    pub open spec fn can_mul(self, other: Vec4) -> bool {
        &&& fits_i32(self.x * other.x)
        &&& fits_i32(self.y * other.y)
        &&& fits_i32(self.z * other.z)
        &&& fits_i32(self.w * other.w)
    }

    /// Whether every component can be divided by `divisor`.
    pub open spec fn can_div(self, divisor: i32) -> bool {
        &&& divisible_i32(self.x, divisor)
        &&& divisible_i32(self.y, divisor)
        &&& divisible_i32(self.z, divisor)
        &&& divisible_i32(self.w, divisor)
    }
}

impl Index<usize> for Vec4 {
    type Output = i32;

    fn index(&self, index: usize) -> (r: &i32)
        ensures
            *r == self.component(index as int),
    {
        if index == 0 {
            &self.x
        } else if index == 1 {
            &self.y
        } else if index == 2 {
            &self.z
        } else {
            &self.w
        }
    }
}

impl vstd::std_specs::core::IndexSpecImpl<usize> for Vec4 {
    open spec fn index_req(&self, index: &usize) -> bool {
        *index < 4
    }
}

impl IndexMut<usize> for Vec4 {
    fn index_mut(&mut self, index: usize) -> (r: &mut i32)
        requires
            index < 4,
        ensures
            *r == old(self).component(index as int),
            *final(self) == old(self).with_component(index as int, *final(r)),
    {
        if index == 0 {
            &mut self.x
        } else if index == 1 {
            &mut self.y
        } else if index == 2 {
            &mut self.z
        } else {
            &mut self.w
        }
    }
}

impl Add for Vec4 {
    type Output = Vec4;

    fn add(self, other: Vec4) -> (r: Vec4) {
        Vec4 {
            x: self.x + other.x,
            y: self.y + other.y,
            z: self.z + other.z,
            w: self.w + other.w,
        }
    }
}

impl AddSpecImpl for Vec4 {
    open spec fn obeys_add_spec() -> bool {
        true
    }

    open spec fn add_req(self, other: Vec4) -> bool {
        self.can_add(other)
    }

    open spec fn add_spec(self, other: Vec4) -> Vec4 {
        self.plus(other)
    }
}

impl AddAssign for Vec4 {
    fn add_assign(&mut self, other: Vec4)
        requires
            old(self).can_add(other),
        ensures
            *final(self) == old(self).plus(other),
    {
        *self = Vec4 {
            x: self.x + other.x,
            y: self.y + other.y,
            z: self.z + other.z,
            w: self.w + other.w,
        };
    }
}

impl Sub for Vec4 {
    type Output = Vec4;

    fn sub(self, other: Vec4) -> (r: Vec4) {
        Vec4 {
            x: self.x - other.x,
            y: self.y - other.y,
            z: self.z - other.z,
            w: self.w - other.w,
        }
    }
}

impl SubSpecImpl for Vec4 {
    open spec fn obeys_sub_spec() -> bool {
        true
    }

    open spec fn sub_req(self, other: Vec4) -> bool {
        self.can_sub(other)
    }

    open spec fn sub_spec(self, other: Vec4) -> Vec4 {
        self.minus(other)
    }
}

impl SubAssign for Vec4 {
    fn sub_assign(&mut self, other: Vec4)
        requires
            old(self).can_sub(other),
        ensures
            *final(self) == old(self).minus(other),
    {
        *self = Vec4 {
            x: self.x - other.x,
            y: self.y - other.y,
            z: self.z - other.z,
            w: self.w - other.w,
        };
    }
}

impl Mul<i32> for Vec4 {
    type Output = Vec4;

    fn mul(self, other: i32) -> (r: Vec4) {
        Vec4 {
            x: self.x * other,
            y: self.y * other,
            z: self.z * other,
            w: self.w * other,
        }
    }
}

impl MulSpecImpl<i32> for Vec4 {
    open spec fn obeys_mul_spec() -> bool {
        true
    }

    open spec fn mul_req(self, other: i32) -> bool {
        self.can_scale(other)
    }

    open spec fn mul_spec(self, other: i32) -> Vec4 {
        self.scaled(other)
    }
}

impl MulAssign<i32> for Vec4 {
    fn mul_assign(&mut self, other: i32)
        requires
            old(self).can_scale(other),
        ensures
            *final(self) == old(self).scaled(other),
    {
        *self = Vec4 {
            x: self.x * other,
            y: self.y * other,
            z: self.z * other,
            w: self.w * other,
        };
    }
}

impl Mul<Vec4> for Vec4 {
    type Output = Vec4;

    fn mul(self, other: Vec4) -> (r: Vec4) {
        Vec4 {
            x: self.x * other.x,
            y: self.y * other.y,
            z: self.z * other.z,
            w: self.w * other.w,
        }
    }
}

impl MulSpecImpl<Vec4> for Vec4 {
    open spec fn obeys_mul_spec() -> bool {
        true
    }

    open spec fn mul_req(self, other: Vec4) -> bool {
        self.can_mul(other)
    }

    open spec fn mul_spec(self, other: Vec4) -> Vec4 {
        self.times(other)
    }
}

impl MulAssign<Vec4> for Vec4 {
    fn mul_assign(&mut self, other: Vec4)
        requires
            old(self).can_mul(other),
        ensures
            *final(self) == old(self).times(other),
    {
        *self = Vec4 {
            x: self.x * other.x,
            y: self.y * other.y,
            z: self.z * other.z,
            w: self.w * other.w,
        };
    }
}

impl Mul<Vec4> for i32 {
    type Output = Vec4;

    fn mul(self, other: Vec4) -> (r: Vec4) {
        Vec4 {
            x: other.x * self,
            y: other.y * self,
            z: other.z * self,
            w: other.w * self,
        }
    }
}

impl MulSpecImpl<Vec4> for i32 {
    open spec fn obeys_mul_spec() -> bool {
        true
    }

    open spec fn mul_req(self, other: Vec4) -> bool {
        other.can_scale(self)
    }

    open spec fn mul_spec(self, other: Vec4) -> Vec4 {
        other.scaled(self)
    }
}

impl Div<i32> for Vec4 {
    type Output = Vec4;

    fn div(self, other: i32) -> (r: Vec4) {
        Vec4 {
            x: self.x / other,
            y: self.y / other,
            z: self.z / other,
            w: self.w / other,
        }
    }
}

impl DivSpecImpl<i32> for Vec4 {
    open spec fn obeys_div_spec() -> bool {
        true
    }

    open spec fn div_req(self, other: i32) -> bool {
        self.can_div(other)
    }

    open spec fn div_spec(self, other: i32) -> Vec4 {
        self.divided(other)
    }
}

impl DivAssign<i32> for Vec4 {
    fn div_assign(&mut self, other: i32)
        requires
            old(self).can_div(other),
        ensures
            *final(self) == old(self).divided(other),
    {
        *self = Vec4 {
            x: self.x / other,
            y: self.y / other,
            z: self.z / other,
            w: self.w / other,
        };
    }
}

} // verus!
