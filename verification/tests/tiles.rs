use raycore::resources::{Tile, Tiles, DEFAULT_TILE_SIZE};

#[test]
fn default_tile_size_is_sixteen() {
    assert_eq!(16, DEFAULT_TILE_SIZE);
    assert_eq!(16, raycore::components::DEFAULT_TILE_SIZE);
}

#[test]
fn tiles_new_keeps_the_list() {
    let tiles = Tiles::new(vec![Tile { x: 0, y: 0 }, Tile { x: 16, y: 0 }]);
    assert_eq!(&[Tile { x: 0, y: 0 }, Tile { x: 16, y: 0 }], tiles.slice());
}

#[test]
fn tiles_default_is_empty() {
    assert!(Tiles::default().slice().is_empty());
}

#[test]
fn tiles_mut_vector_changes_the_list() {
    let mut tiles = Tiles::new(vec![Tile { x: 0, y: 0 }]);
    tiles.mut_vector().push(Tile { x: 0, y: 16 });
    assert_eq!(&[Tile { x: 0, y: 0 }, Tile { x: 0, y: 16 }], tiles.slice());
    tiles.mut_vector().clear();
    assert!(tiles.slice().is_empty());
}
