use vstd::prelude::*;
use crate::math::tuple2::Tuple2;

verus! {

/// Three components of one kind.
#[derive(Clone, Copy, Debug, PartialEq)]
pub struct Tuple3<T> {
    pub x: T,
    pub y: T,
    pub z: T,
}

impl<T: Copy> View for Tuple3<T> {
    type V = Seq<T>;

    open spec fn view(&self) -> Seq<T> {
        seq![self.x, self.y, self.z]
    }
}

impl<T: Copy> Tuple3<T> {
    pub fn new(x: T, y: T, z: T) -> (t: Self)
        ensures
            t@ == seq![x, y, z],
            t == (Tuple3 { x, y, z }),
    {
        Tuple3 { x, y, z }
    }

    pub fn x(&self) -> (x: T)
        ensures
            x == self@[0],
    {
        self.x
    }

    pub fn y(&self) -> (y: T)
        ensures
            y == self@[1],
    {
        self.y
    }

    pub fn z(&self) -> (z: T)
        ensures
            z == self@[2],
    {
        self.z
    }

    /// The tuple without its third component.
    pub fn xy(&self) -> (t: Tuple2<T>)
        ensures
            t@ == seq![self@[0], self@[1]],
    {
        Tuple2::new(self.x, self.y)
    }

    /// The tuple without its second component.
    pub fn xz(&self) -> (t: Tuple2<T>)
        ensures
            t@ == seq![self@[0], self@[2]],
    {
        Tuple2::new(self.x, self.z)
    }

    /// The tuple without its first component.
    pub fn yz(&self) -> (t: Tuple2<T>)
        ensures
            t@ == seq![self@[1], self@[2]],
    {
        Tuple2::new(self.y, self.z)
    }
}

} // verus!
