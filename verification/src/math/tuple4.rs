use vstd::prelude::*;
use crate::math::tuple3::Tuple3;

verus! {

/// Four components of one kind: a point or a vector in homogeneous
/// coordinates, where the fourth component tells the two apart.
#[derive(Clone, Copy, Debug, PartialEq)]
pub struct Tuple4<T> {
    pub x: T,
    pub y: T,
    pub z: T,
    pub w: T,
}

impl<T: Copy> View for Tuple4<T> {
    type V = Seq<T>;

    open spec fn view(&self) -> Seq<T> {
        seq![self.x, self.y, self.z, self.w]
    }
}

impl<T: Copy> Tuple4<T> {
    pub fn new(x: T, y: T, z: T, w: T) -> (t: Self)
        ensures
            t@ == seq![x, y, z, w],
            t == (Tuple4 { x, y, z, w }),
    {
        Tuple4 { x, y, z, w }
    }

    pub fn x(&self) -> (x: T)
        ensures
            x == self@[0],
    {
        self.x
    }

    pub fn y(&self) -> (y: T)
        ensures
            y == self@[1],
    {
        self.y
    }

    pub fn z(&self) -> (z: T)
        ensures
            z == self@[2],
    {
        self.z
    }

    pub fn w(&self) -> (w: T)
        ensures
            w == self@[3],
    {
        self.w
    }

    /// The tuple without its fourth component.
    pub fn xyz(&self) -> (t: Tuple3<T>)
        ensures
            t@ == seq![self@[0], self@[1], self@[2]],
    {
        Tuple3::new(self.x, self.y, self.z)
    }

    /// The tuple without its third component.
    pub fn xyw(&self) -> (t: Tuple3<T>)
        ensures
            t@ == seq![self@[0], self@[1], self@[3]],
    {
        Tuple3::new(self.x, self.y, self.w)
    }

    /// The tuple without its second component.
    pub fn xzw(&self) -> (t: Tuple3<T>)
        ensures
            t@ == seq![self@[0], self@[2], self@[3]],
    {
        Tuple3::new(self.x, self.z, self.w)
    }

    /// The tuple without its first component.
    pub fn yzw(&self) -> (t: Tuple3<T>)
        ensures
            t@ == seq![self@[1], self@[2], self@[3]],
    {
        Tuple3::new(self.y, self.z, self.w)
    }
}

} // verus!
