//! A four-component vector over any scalar type. Arithmetic is defined
//! through the standard operator traits; the specifications mirror the
//! scalar type's own operator specifications component by component.
use vstd::prelude::*;
use vstd::std_specs::ops::{AddSpec, AddSpecImpl, SubSpec, SubSpecImpl, MulSpec, MulSpecImpl, DivSpec, DivSpecImpl};

verus! {

#[derive(Debug, Copy, Clone, PartialEq)]
pub struct Vec4<T> {
    pub x: T,
    pub y: T,
    pub z: T,
    pub w: T,
}

pub type Int4 = Vec4<i32>;

impl<T> Vec4<T> {
    pub fn new(x: T, y: T, z: T, w: T) -> (r: Self)
        ensures
            r == (Vec4 { x, y, z, w }),
    {
        Self { x, y, z, w }
    }
}

impl<T: Copy> Vec4<T> {
    pub fn get_x(&self) -> (r: T)
        ensures
            r == self.x,
    {
        self.x
    }

    pub fn get_y(&self) -> (r: T)
        ensures
            r == self.y,
    {
        self.y
    }

    pub fn get_z(&self) -> (r: T)
        ensures
            r == self.z,
    {
        self.z
    }

    pub fn get_w(&self) -> (r: T)
        ensures
            r == self.w,
    {
        self.w
    }

    pub fn set_x(&mut self, value: T)
        ensures
            *final(self) == (Vec4 { x: value, ..*old(self) }),
    {
        self.x = value;
    }

    pub fn set_y(&mut self, value: T)
        ensures
            *final(self) == (Vec4 { y: value, ..*old(self) }),
    {
        self.y = value;
    }

    pub fn set_z(&mut self, value: T)
        ensures
            *final(self) == (Vec4 { z: value, ..*old(self) }),
    {
        self.z = value;
    }

    pub fn set_w(&mut self, value: T)
        ensures
            *final(self) == (Vec4 { w: value, ..*old(self) }),
    {
        self.w = value;
    }

    pub fn get_vec2(self) -> (r: crate::vec2::Vec2<T>)
        ensures
            r == (crate::vec2::Vec2 { x: self.x, y: self.y }),
    {
        crate::vec2::Vec2::new(self.x, self.y)
    }

    pub fn get_vec3(self) -> (r: crate::vec3::Vec3<T>)
        ensures
            r == (crate::vec3::Vec3 { x: self.x, y: self.y, z: self.z }),
    {
        crate::vec3::Vec3::new(self.x, self.y, self.z)
    }
}

impl<T> core::ops::Index<usize> for Vec4<T> {
    type Output = T;

    fn index(&self, index: usize) -> &T {
        if index == 0 {
            &self.x
        } else if index == 1 {
            &self.y
        } else if index == 2 {
            &self.z
        } else {
            &self.w
        }
    }
}

impl<T> vstd::std_specs::core::IndexSpecImpl<usize> for Vec4<T> {
    open spec fn index_req(&self, index: &usize) -> bool {
        *index < 4
    }
}

impl<T> core::ops::IndexMut<usize> for Vec4<T> {
    fn index_mut(&mut self, index: usize) -> &mut T {
        if index == 0 {
            &mut self.x
        } else if index == 1 {
            &mut self.y
        } else if index == 2 {
            &mut self.z
        } else {
            &mut self.w
        }
    }
}

impl<T: core::ops::Add<Output = T> + Copy> core::ops::Add for Vec4<T> {
    type Output = Vec4<T>;

    fn add(self, rhs: Self) -> Self::Output {
        Self::new(self.x + rhs.x, self.y + rhs.y, self.z + rhs.z, self.w + rhs.w)
    }
}

impl<T: core::ops::Add<Output = T> + Copy> AddSpecImpl for Vec4<T> {
    open spec fn obeys_add_spec() -> bool {
        T::obeys_add_spec()
    }

    open spec fn add_req(self, rhs: Vec4<T>) -> bool {
        self.x.add_req(rhs.x) && self.y.add_req(rhs.y) && self.z.add_req(rhs.z) && self.w.add_req(rhs.w)
    }

    open spec fn add_spec(self, rhs: Vec4<T>) -> Vec4<T> {
        Vec4 {
            x: self.x.add_spec(rhs.x),
            y: self.y.add_spec(rhs.y),
            z: self.z.add_spec(rhs.z),
            w: self.w.add_spec(rhs.w),
        }
    }
}

impl<T: core::ops::Sub<Output = T> + Copy> core::ops::Sub for Vec4<T> {
    type Output = Vec4<T>;

    fn sub(self, rhs: Self) -> Self::Output {
        Self::new(self.x - rhs.x, self.y - rhs.y, self.z - rhs.z, self.w - rhs.w)
    }
}

impl<T: core::ops::Sub<Output = T> + Copy> SubSpecImpl for Vec4<T> {
    open spec fn obeys_sub_spec() -> bool {
        T::obeys_sub_spec()
    }

    open spec fn sub_req(self, rhs: Vec4<T>) -> bool {
        self.x.sub_req(rhs.x) && self.y.sub_req(rhs.y) && self.z.sub_req(rhs.z) && self.w.sub_req(rhs.w)
    }

    open spec fn sub_spec(self, rhs: Vec4<T>) -> Vec4<T> {
        Vec4 {
            x: self.x.sub_spec(rhs.x),
            y: self.y.sub_spec(rhs.y),
            z: self.z.sub_spec(rhs.z),
            w: self.w.sub_spec(rhs.w),
        }
    }
}

impl<T: core::ops::Mul<Output = T> + Copy> core::ops::Mul<T> for Vec4<T> {
    type Output = Vec4<T>;

    fn mul(self, rhs: T) -> Self::Output {
        Self::new(self.x * rhs, self.y * rhs, self.z * rhs, self.w * rhs)
    }
}

impl<T: core::ops::Mul<Output = T> + Copy> MulSpecImpl<T> for Vec4<T> {
    open spec fn obeys_mul_spec() -> bool {
        T::obeys_mul_spec()
    }

    open spec fn mul_req(self, rhs: T) -> bool {
        self.x.mul_req(rhs) && self.y.mul_req(rhs) && self.z.mul_req(rhs) && self.w.mul_req(rhs)
    }

    open spec fn mul_spec(self, rhs: T) -> Vec4<T> {
        Vec4 {
            x: self.x.mul_spec(rhs),
            y: self.y.mul_spec(rhs),
            z: self.z.mul_spec(rhs),
            w: self.w.mul_spec(rhs),
        }
    }
}

impl<T: core::ops::Div<Output = T> + Copy> core::ops::Div<T> for Vec4<T> {
    type Output = Vec4<T>;

    fn div(self, rhs: T) -> Self::Output {
        Self::new(self.x / rhs, self.y / rhs, self.z / rhs, self.w / rhs)
    }
}

impl<T: core::ops::Div<Output = T> + Copy> DivSpecImpl<T> for Vec4<T> {
    open spec fn obeys_div_spec() -> bool {
        T::obeys_div_spec()
    }

    open spec fn div_req(self, rhs: T) -> bool {
        self.x.div_req(rhs) && self.y.div_req(rhs) && self.z.div_req(rhs) && self.w.div_req(rhs)
    }

    open spec fn div_spec(self, rhs: T) -> Vec4<T> {
        Vec4 {
            x: self.x.div_spec(rhs),
            y: self.y.div_spec(rhs),
            z: self.z.div_spec(rhs),
            w: self.w.div_spec(rhs),
        }
    }
}

impl<T: core::ops::Add<Output = T> + Copy> core::ops::AddAssign for Vec4<T> {
    fn add_assign(&mut self, rhs: Vec4<T>)
        requires
            old(self).x.add_req(rhs.x),
            old(self).y.add_req(rhs.y),
            old(self).z.add_req(rhs.z),
            old(self).w.add_req(rhs.w),
        ensures
            T::obeys_add_spec() ==> *final(self) == (Vec4 {
                x: old(self).x.add_spec(rhs.x),
                y: old(self).y.add_spec(rhs.y),
                z: old(self).z.add_spec(rhs.z),
                w: old(self).w.add_spec(rhs.w),
            }),
    {
        *self = Self::new(self.x + rhs.x, self.y + rhs.y, self.z + rhs.z, self.w + rhs.w);
    }
}

impl<T: core::ops::Sub<Output = T> + Copy> core::ops::SubAssign for Vec4<T> {
    fn sub_assign(&mut self, rhs: Vec4<T>)
        requires
            old(self).x.sub_req(rhs.x),
            old(self).y.sub_req(rhs.y),
            old(self).z.sub_req(rhs.z),
            old(self).w.sub_req(rhs.w),
        ensures
            T::obeys_sub_spec() ==> *final(self) == (Vec4 {
                x: old(self).x.sub_spec(rhs.x),
                y: old(self).y.sub_spec(rhs.y),
                z: old(self).z.sub_spec(rhs.z),
                w: old(self).w.sub_spec(rhs.w),
            }),
    {
        *self = Self::new(self.x - rhs.x, self.y - rhs.y, self.z - rhs.z, self.w - rhs.w);
    }
}

impl<T: core::ops::Mul<Output = T> + Copy> core::ops::MulAssign<T> for Vec4<T> {
    fn mul_assign(&mut self, rhs: T)
        requires
            old(self).x.mul_req(rhs),
            old(self).y.mul_req(rhs),
            old(self).z.mul_req(rhs),
            old(self).w.mul_req(rhs),
        ensures
            T::obeys_mul_spec() ==> *final(self) == (Vec4 {
                x: old(self).x.mul_spec(rhs),
                y: old(self).y.mul_spec(rhs),
                z: old(self).z.mul_spec(rhs),
                w: old(self).w.mul_spec(rhs),
            }),
    {
        *self = Self::new(self.x * rhs, self.y * rhs, self.z * rhs, self.w * rhs);
    }
}

impl<T: core::ops::Div<Output = T> + Copy> core::ops::DivAssign<T> for Vec4<T> {
    fn div_assign(&mut self, rhs: T)
        requires
            old(self).x.div_req(rhs),
            old(self).y.div_req(rhs),
            old(self).z.div_req(rhs),
            old(self).w.div_req(rhs),
        ensures
            T::obeys_div_spec() ==> *final(self) == (Vec4 {
                x: old(self).x.div_spec(rhs),
                y: old(self).y.div_spec(rhs),
                z: old(self).z.div_spec(rhs),
                w: old(self).w.div_spec(rhs),
            }),
    {
        *self = Self::new(self.x / rhs, self.y / rhs, self.z / rhs, self.w / rhs);
    }
}

impl<T: core::ops::Add<Output = T> + core::ops::Mul<Output = T> + Copy> Vec4<T> {
    pub fn dot(lhs: Vec4<T>, rhs: Vec4<T>) -> (r: T)
        requires
            lhs.x.mul_req(rhs.x),
            lhs.y.mul_req(rhs.y),
            lhs.z.mul_req(rhs.z),
            lhs.w.mul_req(rhs.w),
            T::obeys_mul_spec() && T::obeys_add_spec() ==> {
                &&& lhs.x.mul_spec(rhs.x).add_req(lhs.y.mul_spec(rhs.y))
                &&& lhs.x.mul_spec(rhs.x).add_spec(lhs.y.mul_spec(rhs.y)).add_req(lhs.z.mul_spec(rhs.z))
                &&& lhs.x.mul_spec(rhs.x).add_spec(lhs.y.mul_spec(rhs.y)).add_spec(lhs.z.mul_spec(rhs.z)).add_req(lhs.w.mul_spec(rhs.w))
            },
            T::obeys_mul_spec() && T::obeys_add_spec(),
        ensures
            r == lhs.x.mul_spec(rhs.x).add_spec(lhs.y.mul_spec(rhs.y)).add_spec(lhs.z.mul_spec(rhs.z)).add_spec(lhs.w.mul_spec(rhs.w)),
    {
        lhs.x * rhs.x + lhs.y * rhs.y + lhs.z * rhs.z + lhs.w * rhs.w
    }
}

} // verus!
