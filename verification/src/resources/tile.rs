use vstd::prelude::*;

pub use crate::components::tile::DEFAULT_TILE_SIZE;

verus! {

/// Origin `(x, y)` of a sub-region of the image; the region spans up to
/// `DEFAULT_TILE_SIZE` pixels in each direction from there.
#[derive(Debug, PartialEq, Eq)]
pub struct Tile {
    pub x: u16,
    pub y: u16,
}

/// The list of tile origins that a render works through.
pub struct Tiles(Vec<Tile>);

impl View for Tiles {
    type V = Seq<Tile>;

    closed spec fn view(&self) -> Seq<Tile> {
        self.0@
    }
}

impl Tiles {
    pub fn new(tiles: Vec<Tile>) -> (r: Tiles)
        ensures
            r@ == tiles@,
    {
        Tiles(tiles)
    }

    pub fn mut_vector(&mut self) -> (r: &mut Vec<Tile>)
        ensures
            r@ == old(self)@,
            final(self)@ == final(r)@,
    {
        &mut self.0
    }

    pub fn slice(&self) -> (r: &[Tile])
        ensures
            r@ == self@,
    {
        self.0.as_slice()
    }
}

impl Default for Tiles {
    fn default() -> (r: Tiles)
        ensures
            r@ == Seq::<Tile>::empty(),
    {
        Tiles(Vec::new())
    }
}

} // verus!
