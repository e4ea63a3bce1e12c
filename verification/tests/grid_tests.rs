use robozzle::grid::{count_stars, Grid};
use robozzle::robot::Robot;
use robozzle::instruction::Direction;
use robozzle::tile::{Tile, TileColor};

fn grid_3x1() -> Grid {
    Grid {
        width: 3,
        height: 1,
        tiles: vec![
            Some(Tile::new(0, 0, TileColor::Gray, false)),
            None,
            Some(Tile::new(2, 0, TileColor::Red, true)),
        ],
    }
}

#[test]
fn valid_position_is_in_bounds_and_present() {
    let g = grid_3x1();
    // in bounds with a tile
    assert!(g.is_in_bounds(0, 0) && g.get_tile_at(0, 0).is_some());
    assert!(g.is_valid_position(0, 0));
    // in bounds but a hole
    assert!(g.is_in_bounds(1, 0));
    assert!(g.get_tile_at(1, 0).is_none());
    assert!(!g.is_valid_position(1, 0));
    // out of bounds
    assert!(!g.is_in_bounds(3, 0));
    assert!(!g.is_valid_position(3, 0));
    assert!(!g.is_valid_position(-1, 0));
    assert!(!g.is_valid_position(0, 1));
    assert!(!g.is_valid_position(0, -1));
}

#[test]
fn short_tile_sequence_counts_as_absent() {
    let g = Grid { width: 2, height: 2, tiles: vec![Some(Tile::new(0, 0, TileColor::Gray, false))] };
    assert!(g.is_in_bounds(1, 1));
    assert!(!g.is_valid_position(1, 1));
    assert!(g.get_tile_at(1, 1).is_none());
}

#[test]
fn collect_star_transitions_exactly_once() {
    let mut g = grid_3x1();
    assert_eq!(g.count_collected_stars(), 0);
    assert!(g.collect_star_at(2, 0));
    assert_eq!(g.count_collected_stars(), 1);
    // a second collection on the same tile does not double-count
    assert!(!g.collect_star_at(2, 0));
    assert_eq!(g.count_collected_stars(), 1);
    // a starless tile or a hole collects nothing
    assert!(!g.collect_star_at(0, 0));
    assert!(!g.collect_star_at(1, 0));
    assert_eq!(g.count_collected_stars(), 1);
}

#[test]
fn set_tile_at_replaces_only_in_range() {
    let mut g = grid_3x1();
    g.set_tile_at(1, 0, Some(Tile::new(1, 0, TileColor::Blue, false)));
    assert_eq!(g.get_tile_at(1, 0).unwrap().color, TileColor::Blue);
    g.set_tile_at(5, 0, Some(Tile::new(5, 0, TileColor::Green, false)));
    assert!(g.get_tile_at(5, 0).is_none());
}

#[test]
fn count_stars_counts_only_present_starred_tiles() {
    let g = grid_3x1();
    assert_eq!(count_stars(&g.tiles), 1);
    let empty = Grid { width: 0, height: 0, tiles: vec![] };
    assert_eq!(count_stars(&empty.tiles), 0);
}

#[test]
fn clear_collected_stars_puts_stars_back() {
    let mut g = grid_3x1();
    g.collect_star_at(2, 0);
    g.clear_collected_stars();
    assert_eq!(g.count_collected_stars(), 0);
    assert!(g.get_tile_at(2, 0).unwrap().has_star);
}

#[test]
fn robot_moves_turns_and_resets() {
    let mut r = Robot::new(1, 1, Direction::East);
    r.move_forward();
    assert_eq!((r.x, r.y), (2, 1));
    r.turn_left();
    assert_eq!(r.direction, Direction::North);
    r.move_forward();
    assert_eq!((r.x, r.y), (2, 0));
    r.turn_right();
    assert_eq!(r.direction, Direction::East);
    r.reset_to_start();
    assert_eq!((r.x, r.y), (1, 1));
    assert_eq!(r.direction, Direction::East);
    assert_eq!((r.start_x, r.start_y), (1, 1));
}
