use battleship::board::GameBoard;
use battleship::board::GameBoardShotResult;
use battleship::position::Position;

fn lines(grid: &str) -> Vec<String> {
    grid.split_whitespace().map(|row| row.to_string()).collect()
}

fn pos(x: u8, y: u8) -> Position {
    Position::top_left()
        .iter()
        .nth(usize::from(y) * 10 + usize::from(x))
        .unwrap()
}

const VALID_GRID: &str = "\
     ####_###_# \
     _________# \
     _________# \
     __________ \
     _________# \
     _________# \
     __________ \
     #________# \
     _________# \
     #_#_#_##__ \
     ";

#[test]
#[allow(non_snake_case)]
fn test_GameBoard_validation_ok() {
    assert!(GameBoard::from_lines(&lines(VALID_GRID)).is_ok());
}

#[test]
#[allow(non_snake_case)]
fn test_GameBoard_validation_of_invalid_size() {
    assert!(GameBoard::from_lines(&lines("")).is_err());

    assert!(GameBoard::from_lines(&lines(
        "\
         __________ \
         __________ \
         __________ \
         __________ \
         "
    ))
    .is_err());

    assert!(GameBoard::from_lines(&lines(
        "\
         __________ \
         __________ \
         __________ \
         __________ \
         __________ \
         __________ \
         __________ \
         __________ \
         __________ \
         __________ \
         __________ \
         __________ \
         __________ \
         __________ \
         "
    ))
    .is_err());

    assert!(GameBoard::from_lines(&lines(
        "\
         __________ \
         __________ \
         __________ \
         __________ \
         __________ \
         __________ \
         __________ \
         __________ \
         __________ \
         ___________ \
         "
    ))
    .is_err());

    assert!(GameBoard::from_lines(&lines(
        "\
         __________ \
         __________ \
         __________ \
         __________ \
         __________ \
         __________ \
         __________ \
         __________ \
         __________ \
         _________ \
         "
    ))
    .is_err());

    assert!(GameBoard::from_lines(&lines(
        "\
         ______ \
         ______ \
         ______ \
         ______ \
         ______ \
         ______ \
         ______ \
         ______ \
         ______ \
         ______ \
         "
    ))
    .is_err());
}

#[test]
#[allow(non_snake_case)]
fn test_GameBoard_validation_of_invalid_chars() {
    assert!(GameBoard::from_lines(&lines(
        "\
         __________ \
         __________ \
         __________ \
         __________ \
         __________ \
         __________ \
         __________ \
         __________ \
         __________ \
         __________ \
         "
    ))
    .is_err());

    assert!(GameBoard::from_lines(&lines(
        "\
         ########## \
         ########## \
         ########## \
         ########## \
         ########## \
         ########## \
         ########## \
         ########## \
         ########## \
         ########## \
         "
    ))
    .is_err());

    assert!(GameBoard::from_lines(&lines(
        "\
         !!!!!!!!!! \
         !!!!!!!!!! \
         !!!!!!!!!! \
         !!!!!!!!!! \
         !!!!!!!!!! \
         !!!!!!!!!! \
         !!!!!!!!!! \
         !!!!!!!!!! \
         !!!!!!!!!! \
         !!!!!!!!!! \
         "
    ))
    .is_err());
}

#[test]
#[allow(non_snake_case)]
fn test_GameBoard_validation_of_invalid_number_of_ships() {
    assert!(GameBoard::from_lines(&lines(
        "\
         ####______ \
         __________ \
         ###_###___ \
         __________ \
         ##_##_##__ \
         __________ \
         #_#_#_#___ \
         __________ \
         __________ \
         ####______ \
         "
    ))
    .is_err());

    assert!(GameBoard::from_lines(&lines(
        "\
         ####______ \
         __________ \
         ###_###___ \
         __________ \
         ##_##_##__ \
         __________ \
         #_#_#_#___ \
         __________ \
         __________ \
         ###_______ \
         "
    ))
    .is_err());

    assert!(GameBoard::from_lines(&lines(
        "\
         ####______ \
         __________ \
         ###_###___ \
         __________ \
         ##_##_##__ \
         __________ \
         #_#_#_#___ \
         __________ \
         __________ \
         ##________ \
         "
    ))
    .is_err());

    assert!(GameBoard::from_lines(&lines(
        "\
         ####______ \
         __________ \
         ###_###___ \
         __________ \
         ##_##_##__ \
         __________ \
         #_#_#_#___ \
         __________ \
         __________ \
         #_________ \
         "
    ))
    .is_err());

    assert!(GameBoard::from_lines(&lines(
        "\
         #_#_#_#__# \
         #_#_#____# \
         #_#___#__# \
         #___#____# \
         __#_#_#___ \
         __#_______ \
         __#_#_#___ \
         ____#_____ \
         __________ \
         __________ \
         "
    ))
    .is_err());

    assert!(GameBoard::from_lines(&lines(
        "\
         #_#_#_#__# \
         #_#_#____# \
         #_#___#__# \
         #___#_____ \
         __#_#_#___ \
         __#_______ \
         __#_#_#___ \
         ____#_____ \
         __________ \
         __________ \
         "
    ))
    .is_err());

    assert!(GameBoard::from_lines(&lines(
        "\
         #_#_#_#__# \
         #_#_#____# \
         #_#___#___ \
         #___#_____ \
         __#_#_#___ \
         __#_______ \
         __#_#_#___ \
         ____#_____ \
         __________ \
         __________ \
         "
    ))
    .is_err());

    assert!(GameBoard::from_lines(&lines(
        "\
         #_#_#_#__# \
         #_#_#_____ \
         #_#___#___ \
         #___#_____ \
         __#_#_#___ \
         __#_______ \
         __#_#_#___ \
         ____#_____ \
         __________ \
         __________ \
         "
    ))
    .is_err());
}

#[test]
#[allow(non_snake_case)]
fn test_GameBoard_validation_of_invalid_ship_shapes() {
    assert!(GameBoard::from_lines(&lines(
        "\
         ####______ \
         ###_###___ \
         __________ \
         __________ \
         ##_##_##__ \
         __________ \
         #_#_#_#___ \
         __________ \
         __________ \
         __________ \
         "
    ))
    .is_err());

    assert!(GameBoard::from_lines(&lines(
        "\
         ####______ \
         _______#__ \
         ###_###___ \
         __________ \
         ##_##_##__ \
         __________ \
         #_#_#_____ \
         __________ \
         __________ \
         __________ \
         "
    ))
    .is_err());

    assert!(GameBoard::from_lines(&lines(
        "\
         ####______ \
         __________ \
         ###_###___ \
         __________ \
         ##_##_##__ \
         __#_______ \
         __#_#_#___ \
         __________ \
         __________ \
         __________ \
         "
    ))
    .is_err());

    assert!(GameBoard::from_lines(&lines(
        "\
         ####______ \
         ___#______ \
         ___#______ \
         __________ \
         ###_______ \
         __________ \
         ##_##_##__ \
         __________ \
         #_#_#_#___ \
         __________ \
         "
    ))
    .is_err());

    assert!(GameBoard::from_lines(&lines(
        "\
         _#________ \
         ####______ \
         _#________ \
         __________ \
         ###_______ \
         __________ \
         ##_##_##__ \
         __________ \
         #_#_#_#___ \
         __________ \
         "
    ))
    .is_err());

    assert!(GameBoard::from_lines(&lines(
        "\
         ####______ \
         __________ \
         ###_###___ \
         __________ \
         ##_##_##__ \
         __________ \
         ___#_#_#__ \
         __#_______ \
         __________ \
         __________ \
         "
    ))
    .is_err());

    assert!(GameBoard::from_lines(&lines(
        "\
         ####______ \
         __________ \
         ###_###___ \
         __________ \
         ##_##_##__ \
         __________ \
         _#_#_#_#__ \
         __________ \
         _#####____ \
         __________ \
         "
    ))
    .is_err());
}

#[test]
fn test_fresh_board_has_20_hits_left() {
    let board = GameBoard::from_lines(&lines(VALID_GRID)).unwrap();
    assert_eq!(board.hits_left(), 20);
}

#[test]
fn test_lone_ship_cell_sinks_at_once() {
    let mut board = GameBoard::from_lines(&lines(VALID_GRID)).unwrap();
    let result = board.shoot(pos(0, 7));
    assert!(matches!(result, GameBoardShotResult::Sunk));
    assert_eq!(board.hits_left(), 19);
}

#[test]
fn test_length_four_ship_sinks_on_last_cell() {
    let mut board = GameBoard::from_lines(&lines(VALID_GRID)).unwrap();
    assert!(matches!(board.shoot(pos(0, 0)), GameBoardShotResult::Hit));
    assert_eq!(board.hits_left(), 19);
    assert!(matches!(board.shoot(pos(2, 0)), GameBoardShotResult::Hit));
    assert_eq!(board.hits_left(), 18);
    assert!(matches!(board.shoot(pos(1, 0)), GameBoardShotResult::Hit));
    assert_eq!(board.hits_left(), 17);
    assert!(matches!(board.shoot(pos(3, 0)), GameBoardShotResult::Sunk));
    assert_eq!(board.hits_left(), 16);
}

#[test]
fn test_vertical_ship_sinks_on_last_cell() {
    let mut board = GameBoard::from_lines(&lines(VALID_GRID)).unwrap();
    assert!(matches!(board.shoot(pos(9, 1)), GameBoardShotResult::Hit));
    assert!(matches!(board.shoot(pos(9, 2)), GameBoardShotResult::Hit));
    assert!(matches!(board.shoot(pos(9, 0)), GameBoardShotResult::Sunk));
    assert_eq!(board.hits_left(), 17);
}

#[test]
fn test_reshooting_a_shot_cell_is_idempotent() {
    let mut board = GameBoard::from_lines(&lines(VALID_GRID)).unwrap();
    assert!(matches!(board.shoot(pos(0, 9)), GameBoardShotResult::Sunk));
    assert_eq!(board.hits_left(), 19);
    assert!(matches!(board.shoot(pos(0, 9)), GameBoardShotResult::Miss));
    assert_eq!(board.hits_left(), 19);
    assert!(matches!(board.shoot(pos(1, 1)), GameBoardShotResult::Miss));
    assert_eq!(board.hits_left(), 19);
    assert!(matches!(board.shoot(pos(1, 1)), GameBoardShotResult::Miss));
    assert_eq!(board.hits_left(), 19);
}

#[test]
fn test_shooting_water_misses_and_keeps_hits_left() {
    let mut board = GameBoard::from_lines(&lines(VALID_GRID)).unwrap();
    assert!(matches!(board.shoot(pos(4, 0)), GameBoardShotResult::Miss));
    assert_eq!(board.hits_left(), 20);
    assert!(matches!(board.shoot(pos(5, 3)), GameBoardShotResult::Miss));
    assert_eq!(board.hits_left(), 20);
}

#[test]
fn test_shot_result_tokens() {
    assert_eq!(GameBoardShotResult::Miss.as_str(), "miss");
    assert_eq!(GameBoardShotResult::Hit.as_str(), "hit");
    assert_eq!(GameBoardShotResult::Sunk.as_str(), "sunk");
}

#[test]
fn test_board_dump_shows_shots() {
    let mut board = GameBoard::from_lines(&lines(VALID_GRID)).unwrap();
    let fresh = board.to_string();
    assert_eq!(
        fresh,
        "####_###_#\n_________#\n_________#\n__________\n_________#\n\
         _________#\n__________\n#________#\n_________#\n#_#_#_##__\n"
    );
    board.shoot(pos(4, 0));
    board.shoot(pos(0, 7));
    let marked = board.to_string();
    assert_eq!(
        marked,
        "####O###_#\n_________#\n_________#\n__________\n_________#\n\
         _________#\n__________\n$________#\n_________#\n#_#_#_##__\n"
    );
}

#[test]
fn test_board_get_reads_cells() {
    let board = GameBoard::from_lines(&lines(VALID_GRID)).unwrap();
    assert!(board.get(pos(0, 0)).is_ship());
    assert!(!board.get(pos(0, 0)).is_shot());
    assert!(board.get(pos(4, 0)).is_empty());
    let mut board = board;
    board.shoot(pos(0, 7));
    assert!(board.get(pos(0, 7)).is_shot());
    assert!(board.get(pos(0, 7)).is_ship());
}

#[test]
fn test_corner_touching_fleet_is_rejected() {
    // Exactly the required fleet, but the fourth length-1 ship touches the
    // third length-2 ship diagonally.
    assert!(GameBoard::from_lines(&lines(
        "\
         ####______ \
         __________ \
         ###_###___ \
         __________ \
         ##_##_____ \
         __________ \
         #_#_#_____ \
         ______#___ \
         _____#____ \
         _____#____ \
         "
    ))
    .is_err());
}
