use botgame::direction::Direction;
use botgame::map::{dir_to_adjacent_tile, GridPos, Place, TileMap};

#[test]
fn parses_every_tile_character() {
    let m = TileMap::from_str("-.^v<> #o").unwrap();
    assert_eq!(m.width, 9);
    assert_eq!(m.height, 1);
    let expected = [
        Place::UpperFloor,
        Place::LowerFloor,
        Place::Ramp(Direction::Up),
        Place::Ramp(Direction::Down),
        Place::Ramp(Direction::Left),
        Place::Ramp(Direction::Right),
        Place::Void,
        Place::Wall,
        Place::Exit,
    ];
    for (x, p) in expected.iter().enumerate() {
        assert_eq!(m.tile(GridPos(x, 0)), *p);
    }
}

#[test]
fn short_rows_are_padded_with_void() {
    let m = TileMap::from_str("..\n....\n.").unwrap();
    assert_eq!(m.width, 4);
    assert_eq!(m.height, 3);
    assert_eq!(m.layout.len(), 12);
    assert_eq!(m.tile(GridPos(1, 0)), Place::LowerFloor);
    assert_eq!(m.tile(GridPos(2, 0)), Place::Void);
    assert_eq!(m.tile(GridPos(3, 1)), Place::LowerFloor);
    assert_eq!(m.tile(GridPos(1, 2)), Place::Void);
}

#[test]
fn trailing_white_space_and_final_newline_are_ignored() {
    let m = TileMap::from_str("#.   \r\n.#\t\n").unwrap();
    assert_eq!(m.width, 2);
    assert_eq!(m.height, 2);
    assert_eq!(m.tile(GridPos(0, 0)), Place::Wall);
    assert_eq!(m.tile(GridPos(1, 1)), Place::Wall);
}

#[test]
fn blank_lines_are_void_rows() {
    let m = TileMap::from_str("..\n\n..").unwrap();
    assert_eq!(m.height, 3);
    assert_eq!(m.tile(GridPos(0, 1)), Place::Void);
    assert_eq!(m.tile(GridPos(0, 2)), Place::LowerFloor);
}

#[test]
fn unknown_character_is_refused() {
    assert!(TileMap::from_str("..x.").is_none());
    assert!(TileMap::from_str("..\n.\t.").is_none());
}

#[test]
fn empty_text_is_refused() {
    assert!(TileMap::from_str("").is_none());
}

#[test]
fn outside_the_map_is_void() {
    let m = TileMap::from_str("##\n##").unwrap();
    assert_eq!(m.tile(GridPos(2, 0)), Place::Void);
    assert_eq!(m.tile(GridPos(0, 2)), Place::Void);
    assert_eq!(m.tile(GridPos(usize::MAX, 0)), Place::Void);
}

#[test]
fn steps_wrap_at_the_edge_of_the_coordinates() {
    assert_eq!(GridPos(0, 0).step(Direction::Up), GridPos(0, usize::MAX));
    assert_eq!(GridPos(0, 0).step(Direction::Left), GridPos(usize::MAX, 0));
    assert_eq!(GridPos(3, 4).step(Direction::Down), GridPos(3, 5));
    assert_eq!(GridPos(3, 4).step(Direction::Right), GridPos(4, 4));
}

#[test]
fn direction_between_neighbours() {
    assert_eq!(dir_to_adjacent_tile(GridPos(1, 1), GridPos(2, 1)), Direction::Right);
    assert_eq!(dir_to_adjacent_tile(GridPos(1, 1), GridPos(0, 1)), Direction::Left);
    assert_eq!(dir_to_adjacent_tile(GridPos(1, 1), GridPos(1, 2)), Direction::Down);
    assert_eq!(dir_to_adjacent_tile(GridPos(1, 1), GridPos(1, 0)), Direction::Up);
}
