use robozzle::instruction::Direction;
use robozzle::level::{LevelData, ParseError};
use robozzle::tile::TileColor;

#[test]
fn full_level_parses() {
    let content = b"LEVEL My Puzzle\nSIZE 3 2\nROBOT 0 1 E\nFUNCTIONS 4 2\nGRID:\nR* G B\nX . .\n";
    let l = LevelData::parse(content, 2).unwrap();
    assert_eq!(l.id, 2);
    assert_eq!(l.name, "My Puzzle");
    assert_eq!(l.width, 3);
    assert_eq!(l.height, 2);
    assert_eq!(l.robot_start_pos, (0, 1));
    assert_eq!(l.robot_start_dir, Direction::East);
    assert_eq!(l.function_limits, vec![4, 2]);
    assert_eq!(l.total_stars, 1);
    assert_eq!(l.tiles.len(), 6);
    let t0 = l.tiles[0].unwrap();
    assert_eq!(t0.color, TileColor::Red);
    assert!(t0.has_star && !t0.star_collected);
    assert_eq!(l.tiles[1].unwrap().color, TileColor::Green);
    assert_eq!(l.tiles[2].unwrap().color, TileColor::Blue);
    assert!(l.tiles[3].is_none());
    assert_eq!(l.tiles[4].unwrap().color, TileColor::Gray);
    assert_eq!((l.tiles[5].unwrap().x, l.tiles[5].unwrap().y), (2, 1));
}

#[test]
fn missing_functions_directive_gives_one_function_of_capacity_five() {
    let content = b"SIZE 1 1\nROBOT 0 0 N\nGRID:\n.\n";
    let l = LevelData::parse(content, 0).unwrap();
    assert_eq!(l.function_limits, vec![5]);
}

#[test]
fn missing_level_directive_gives_a_numbered_default_name() {
    let content = b"SIZE 1 1\nGRID:\n.\n";
    let l = LevelData::parse(content, 0).unwrap();
    assert_eq!(l.name, "Problem 1");
    let l = LevelData::parse(content, 11).unwrap();
    assert_eq!(l.name, "Problem 12");
}

#[test]
fn short_grid_lines_pad_with_holes() {
    let content = b"SIZE 3 1\nGRID:\n.\n";
    let l = LevelData::parse(content, 0).unwrap();
    assert!(l.tiles[0].is_some());
    assert!(l.tiles[1].is_none());
    assert!(l.tiles[2].is_none());
}

#[test]
fn missing_grid_rows_stop_the_body_early() {
    let content = b"SIZE 2 3\nGRID:\n. .\n";
    let l = LevelData::parse(content, 0).unwrap();
    assert_eq!(l.tiles.len(), 2);
}

#[test]
fn star_marker_anywhere_in_the_token_counts() {
    let content = b"SIZE 3 1\nGRID:\nG* *B X*\n";
    let l = LevelData::parse(content, 0).unwrap();
    assert_eq!(l.total_stars, 3);
    assert_eq!(l.tiles[0].unwrap().color, TileColor::Green);
    // a token other than the bare hole marker is a tile; an unknown first
    // character means gray
    assert_eq!(l.tiles[1].unwrap().color, TileColor::Gray);
    assert_eq!(l.tiles[2].unwrap().color, TileColor::Gray);
    assert!(l.tiles[2].unwrap().has_star);
}

#[test]
fn unreadable_numeric_fields_name_the_field() {
    assert_eq!(LevelData::parse(b"SIZE x 1\nGRID:\n", 0).unwrap_err(), ParseError::BadWidth);
    assert_eq!(LevelData::parse(b"SIZE 1 y\nGRID:\n", 0).unwrap_err(), ParseError::BadHeight);
    assert_eq!(
        LevelData::parse(b"ROBOT a 0 N\nGRID:\n", 0).unwrap_err(),
        ParseError::BadRobotX,
    );
    assert_eq!(
        LevelData::parse(b"ROBOT 0 b N\nGRID:\n", 0).unwrap_err(),
        ParseError::BadRobotY,
    );
    assert_eq!(
        LevelData::parse(b"ROBOT 0 0 Q\nGRID:\n", 0).unwrap_err(),
        ParseError::BadDirection,
    );
    assert_eq!(
        LevelData::parse(b"FUNCTIONS 3 x\nGRID:\n", 0).unwrap_err(),
        ParseError::BadFunctionLimit,
    );
}

#[test]
fn error_messages_name_the_offending_field() {
    assert_eq!(ParseError::BadWidth.message(), "could not read the grid width");
    assert_eq!(ParseError::BadDirection.message(), "unrecognized robot direction");
}

#[test]
fn malformed_size_with_wrong_arity_is_ignored() {
    let l = LevelData::parse(b"SIZE 4\nSIZE 1 1 9\nGRID:\n.\n", 0).unwrap();
    assert_eq!((l.width, l.height), (0, 0));
    assert_eq!(l.tiles.len(), 0);
    assert_eq!(l.total_stars, 0);
}

#[test]
fn later_directives_overwrite_earlier_ones() {
    let l = LevelData::parse(b"LEVEL a\nLEVEL b\nSIZE 2 2\nSIZE 1 1\nGRID:\nR\n", 0).unwrap();
    assert_eq!(l.name, "b");
    assert_eq!((l.width, l.height), (1, 1));
}

#[test]
fn negative_size_makes_an_empty_board() {
    let l = LevelData::parse(b"SIZE -3 2\nGRID:\n. . .\n", 0).unwrap();
    assert_eq!(l.width, -3);
    assert_eq!(l.tiles.len(), 0);
}

#[test]
fn name_bytes_that_are_not_text_are_replaced_not_echoed() {
    // the level name is decoded, not copied: an invalid byte becomes the
    // replacement character
    let content = b"LEVEL a\xffb\nSIZE 1 1\nGRID:\n.\n";
    let l = LevelData::parse(content, 0).unwrap();
    assert_eq!(l.name, "a\u{fffd}b");
    assert_ne!(l.name.as_bytes(), &content[6..9]);
}

#[test]
fn directives_tolerate_surrounding_whitespace() {
    let content = b"  SIZE 1 1  \r\n  ROBOT 0 0 w  \r\nGRID:\nB\n";
    let l = LevelData::parse(content, 0).unwrap();
    assert_eq!((l.width, l.height), (1, 1));
    assert_eq!(l.robot_start_dir, Direction::West);
    assert_eq!(l.tiles[0].unwrap().color, TileColor::Blue);
}

#[test]
fn session_grid_and_robot_derive_from_the_descriptor() {
    let l = LevelData::parse(b"SIZE 2 1\nROBOT 1 0 S\nGRID:\nR* .\n", 0).unwrap();
    let g = l.make_grid(false);
    assert!(!g.get_tile_at(0, 0).unwrap().star_collected);
    let g_done = l.make_grid(true);
    assert!(g_done.get_tile_at(0, 0).unwrap().star_collected);
    assert!(!g_done.get_tile_at(1, 0).unwrap().star_collected);
    let r = l.make_robot();
    assert_eq!((r.x, r.y), (1, 0));
    assert_eq!(r.direction, Direction::South);
    assert_eq!((r.start_x, r.start_y), (1, 0));
}
