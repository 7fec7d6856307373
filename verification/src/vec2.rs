//! A two-component vector over any scalar type, with componentwise
//! arithmetic specified through the scalar's operator specifications.
use vstd::prelude::*;
use vstd::std_specs::ops::{AddSpec, AddSpecImpl, SubSpec, SubSpecImpl, MulSpec, MulSpecImpl, DivSpec, DivSpecImpl};
use crate::vec3::Vec3;
use crate::vec4::Vec4;

verus! {

#[derive(Debug, Copy, Clone, PartialEq)]
pub struct Vec2<T> {
    pub x: T,
    pub y: T,
}

impl<T> Vec2<T> {
    pub fn new(x: T, y: T) -> (r: Self)
        ensures
            r == (Vec2 { x, y }),
    {
        Self { x, y }
    }
}

impl<T: Copy> Vec2<T> {
    pub fn get_x(self) -> (r: T)
        ensures
            r == self.x,
    {
        self.x
    }

    pub fn get_y(self) -> (r: T)
        ensures
            r == self.y,
    {
        self.y
    }

    pub fn set_x(&mut self, value: T)
        ensures
            *final(self) == (Vec2 { x: value, ..*old(self) }),
    {
        self.x = value;
    }

    pub fn set_y(&mut self, value: T)
        ensures
            *final(self) == (Vec2 { y: value, ..*old(self) }),
    {
        self.y = value;
    }

    pub fn get_vec3(self, z: T) -> (r: Vec3<T>)
        ensures
            r == (Vec3 { x: self.x, y: self.y, z }),
    {
        Vec3::new(self.x, self.y, z)
    }

    pub fn get_vec4(self, z: T, w: T) -> (r: Vec4<T>)
        ensures
            r == (Vec4 { x: self.x, y: self.y, z, w }),
    {
        Vec4::new(self.x, self.y, z, w)
    }
}

impl<T> core::ops::Index<usize> for Vec2<T> {
    type Output = T;

    fn index(&self, index: usize) -> &T {
        if index == 0 {
            &self.x
        } else {
            &self.y
        }
    }
}

impl<T> vstd::std_specs::core::IndexSpecImpl<usize> for Vec2<T> {
    open spec fn index_req(&self, index: &usize) -> bool {
        *index < 2
    }
}

impl<T> core::ops::IndexMut<usize> for Vec2<T> {
    fn index_mut(&mut self, index: usize) -> &mut T {
        if index == 0 {
            &mut self.x
        } else {
            &mut self.y
        }
    }
}

impl<T: core::ops::Add<Output = T> + Copy> core::ops::Add for Vec2<T> {
    type Output = Vec2<T>;

    fn add(self, rhs: Self) -> Self::Output {
        Self::new(self.x + rhs.x, self.y + rhs.y)
    }
}

impl<T: core::ops::Add<Output = T> + Copy> AddSpecImpl for Vec2<T> {
    open spec fn obeys_add_spec() -> bool {
        T::obeys_add_spec()
    }

    open spec fn add_req(self, rhs: Vec2<T>) -> bool {
        self.x.add_req(rhs.x) && self.y.add_req(rhs.y)
    }

    open spec fn add_spec(self, rhs: Vec2<T>) -> Vec2<T> {
        Vec2 { x: self.x.add_spec(rhs.x), y: self.y.add_spec(rhs.y) }
    }
}

impl<T: core::ops::Sub<Output = T> + Copy> core::ops::Sub for Vec2<T> {
    type Output = Vec2<T>;

    fn sub(self, rhs: Self) -> Self::Output {
        Self::new(self.x - rhs.x, self.y - rhs.y)
    }
}

impl<T: core::ops::Sub<Output = T> + Copy> SubSpecImpl for Vec2<T> {
    open spec fn obeys_sub_spec() -> bool {
        T::obeys_sub_spec()
    }

    open spec fn sub_req(self, rhs: Vec2<T>) -> bool {
        self.x.sub_req(rhs.x) && self.y.sub_req(rhs.y)
    }

    open spec fn sub_spec(self, rhs: Vec2<T>) -> Vec2<T> {
        Vec2 { x: self.x.sub_spec(rhs.x), y: self.y.sub_spec(rhs.y) }
    }
}

impl<T: core::ops::Mul<Output = T> + Copy> core::ops::Mul<T> for Vec2<T> {
    type Output = Vec2<T>;

    fn mul(self, rhs: T) -> Self::Output {
        Self::new(self.x * rhs, self.y * rhs)
    }
}

impl<T: core::ops::Mul<Output = T> + Copy> MulSpecImpl<T> for Vec2<T> {
    open spec fn obeys_mul_spec() -> bool {
        T::obeys_mul_spec()
    }

    open spec fn mul_req(self, rhs: T) -> bool {
        self.x.mul_req(rhs) && self.y.mul_req(rhs)
    }

    open spec fn mul_spec(self, rhs: T) -> Vec2<T> {
        Vec2 { x: self.x.mul_spec(rhs), y: self.y.mul_spec(rhs) }
    }
}

impl<T: core::ops::Div<Output = T> + Copy> core::ops::Div<T> for Vec2<T> {
    type Output = Vec2<T>;

    fn div(self, rhs: T) -> Self::Output {
        Self::new(self.x / rhs, self.y / rhs)
    }
}

impl<T: core::ops::Div<Output = T> + Copy> DivSpecImpl<T> for Vec2<T> {
    open spec fn obeys_div_spec() -> bool {
        T::obeys_div_spec()
    }

    open spec fn div_req(self, rhs: T) -> bool {
        self.x.div_req(rhs) && self.y.div_req(rhs)
    }

    open spec fn div_spec(self, rhs: T) -> Vec2<T> {
        Vec2 { x: self.x.div_spec(rhs), y: self.y.div_spec(rhs) }
    }
}

impl<T: core::ops::Add<Output = T> + Copy> core::ops::AddAssign for Vec2<T> {
    fn add_assign(&mut self, rhs: Vec2<T>)
        requires
            old(self).x.add_req(rhs.x),
            old(self).y.add_req(rhs.y),
        ensures
            T::obeys_add_spec() ==> *final(self) == (Vec2 {
                x: old(self).x.add_spec(rhs.x),
                y: old(self).y.add_spec(rhs.y),
            }),
    {
        *self = Self::new(self.x + rhs.x, self.y + rhs.y);
    }
}

impl<T: core::ops::Sub<Output = T> + Copy> core::ops::SubAssign for Vec2<T> {
    fn sub_assign(&mut self, rhs: Vec2<T>)
        requires
            old(self).x.sub_req(rhs.x),
            old(self).y.sub_req(rhs.y),
        ensures
            T::obeys_sub_spec() ==> *final(self) == (Vec2 {
                x: old(self).x.sub_spec(rhs.x),
                y: old(self).y.sub_spec(rhs.y),
            }),
    {
        *self = Self::new(self.x - rhs.x, self.y - rhs.y);
    }
}

impl<T: core::ops::Mul<Output = T> + Copy> core::ops::MulAssign<T> for Vec2<T> {
    fn mul_assign(&mut self, rhs: T)
        requires
            old(self).x.mul_req(rhs),
            old(self).y.mul_req(rhs),
        ensures
            T::obeys_mul_spec() ==> *final(self) == (Vec2 {
                x: old(self).x.mul_spec(rhs),
                y: old(self).y.mul_spec(rhs),
            }),
    {
        *self = Self::new(self.x * rhs, self.y * rhs);
    }
}

impl<T: core::ops::Div<Output = T> + Copy> core::ops::DivAssign<T> for Vec2<T> {
    fn div_assign(&mut self, rhs: T)
        requires
            old(self).x.div_req(rhs),
            old(self).y.div_req(rhs),
        ensures
            T::obeys_div_spec() ==> *final(self) == (Vec2 {
                x: old(self).x.div_spec(rhs),
                y: old(self).y.div_spec(rhs),
            }),
    {
        *self = Self::new(self.x / rhs, self.y / rhs);
    }
}

} // verus!
