use robozzle::instruction::Direction;

#[test]
fn turn_left_cycles_counterclockwise() {
    assert_eq!(Direction::North.turn_left(), Direction::West);
    assert_eq!(Direction::West.turn_left(), Direction::South);
    assert_eq!(Direction::South.turn_left(), Direction::East);
    assert_eq!(Direction::East.turn_left(), Direction::North);
}

#[test]
fn turn_right_cycles_clockwise() {
    assert_eq!(Direction::North.turn_right(), Direction::East);
    assert_eq!(Direction::East.turn_right(), Direction::South);
    assert_eq!(Direction::South.turn_right(), Direction::West);
    assert_eq!(Direction::West.turn_right(), Direction::North);
}

#[test]
fn turns_round_trip_from_every_heading() {
    for d in [Direction::North, Direction::East, Direction::South, Direction::West] {
        assert_eq!(d.turn_left().turn_right(), d);
        assert_eq!(d.turn_right().turn_left(), d);
        assert_eq!(d.turn_left().turn_left().turn_left().turn_left(), d);
    }
}

#[test]
fn offsets_match_screen_rows() {
    assert_eq!(Direction::North.get_offset(), (0, -1));
    assert_eq!(Direction::East.get_offset(), (1, 0));
    assert_eq!(Direction::South.get_offset(), (0, 1));
    assert_eq!(Direction::West.get_offset(), (-1, 0));
}

#[test]
fn from_str_accepts_names_and_letters_any_case() {
    assert_eq!(Direction::from_str("NORTH"), Some(Direction::North));
    assert_eq!(Direction::from_str("north"), Some(Direction::North));
    assert_eq!(Direction::from_str("N"), Some(Direction::North));
    assert_eq!(Direction::from_str("n"), Some(Direction::North));
    assert_eq!(Direction::from_str("East"), Some(Direction::East));
    assert_eq!(Direction::from_str("e"), Some(Direction::East));
    assert_eq!(Direction::from_str("south"), Some(Direction::South));
    assert_eq!(Direction::from_str("s"), Some(Direction::South));
    assert_eq!(Direction::from_str("WeSt"), Some(Direction::West));
    assert_eq!(Direction::from_str("w"), Some(Direction::West));
}

#[test]
fn from_str_rejects_unknown_tokens() {
    assert_eq!(Direction::from_str(""), None);
    assert_eq!(Direction::from_str("NORTHWEST"), None);
    assert_eq!(Direction::from_str("x"), None);
    assert_eq!(Direction::from_str("no"), None);
}
