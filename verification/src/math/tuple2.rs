use vstd::prelude::*;

verus! {

/// Two components of one kind.
#[derive(Clone, Copy, Debug, PartialEq)]
pub struct Tuple2<T> {
    pub x: T,
    pub y: T,
}

impl<T: Copy> View for Tuple2<T> {
    type V = Seq<T>;

    open spec fn view(&self) -> Seq<T> {
        seq![self.x, self.y]
    }
}

impl<T: Copy> Tuple2<T> {
    pub fn new(x: T, y: T) -> (t: Self)
        ensures
            t@ == seq![x, y],
            t == (Tuple2 { x, y }),
    {
        Tuple2 { x, y }
    }

    pub fn x(&self) -> (x: T)
        ensures
            x == self@[0],
    {
        self.x
    }

    pub fn y(&self) -> (y: T)
        ensures
            y == self@[1],
    {
        self.y
    }
}

} // verus!
