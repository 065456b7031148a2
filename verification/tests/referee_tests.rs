use battleship::board::GameBoard;
use battleship::board::GameBoardShotResult;
use battleship::position::Position;
use battleship::referee::GameResult;
use battleship::referee::TurnState;
use battleship::InvalidInputError;

fn lines(grid: &str) -> Vec<String> {
    grid.split_whitespace().map(|row| row.to_string()).collect()
}

fn pos(x: u8, y: u8) -> Position {
    Position::top_left()
        .iter()
        .nth(usize::from(y) * 10 + usize::from(x))
        .unwrap()
}

const VALID_GRID: &str = "\
     ####_###_# \
     _________# \
     _________# \
     __________ \
     _________# \
     _________# \
     __________ \
     #________# \
     _________# \
     #_#_#_##__ \
     ";

const NINE_ROW_GRID: &str = "\
     ####_###_# \
     _________# \
     _________# \
     __________ \
     _________# \
     _________# \
     __________ \
     #________# \
     #_#_#_##__ \
     ";

#[test]
fn test_from_results_combinator() {
    assert!(matches!(
        GameResult::from_results::<u8, u8>(Err(1), Err(2)),
        Ok(GameResult::Draw)
    ));
    assert!(matches!(
        GameResult::from_results::<u8, u8>(Ok(7), Err(2)),
        Ok(GameResult::Player1Win)
    ));
    assert!(matches!(
        GameResult::from_results::<u8, u8>(Err(1), Ok(8)),
        Ok(GameResult::Player2Win)
    ));
    assert!(matches!(
        GameResult::from_results::<u8, u8>(Ok(7), Ok(8)),
        Err((7, 8))
    ));
}

#[test]
fn test_setup_failure_gives_opponent_the_win() {
    let player1 = GameBoard::from_lines(&lines(NINE_ROW_GRID));
    let player2 = GameBoard::from_lines(&lines(VALID_GRID));
    assert!(player1.is_err());
    assert!(player2.is_ok());
    assert!(matches!(
        GameResult::from_results(player1, player2),
        Ok(GameResult::Player2Win)
    ));
}

#[test]
fn test_setup_failure_of_both_is_a_draw() {
    let player1: Result<GameBoard, InvalidInputError> = GameBoard::from_lines(&lines(NINE_ROW_GRID));
    let player2: Result<GameBoard, InvalidInputError> = GameBoard::from_lines(&lines(""));
    assert!(matches!(
        GameResult::from_results(player1, player2),
        Ok(GameResult::Draw)
    ));
}

#[test]
fn test_forfeit_loses_the_game() {
    assert!(matches!(
        TurnState::Player1Turn.resolve_forfeit(),
        TurnState::GameOver(GameResult::Player2Win)
    ));
    assert!(matches!(
        TurnState::Player2Turn.resolve_forfeit(),
        TurnState::GameOver(GameResult::Player1Win)
    ));
}

#[test]
fn test_miss_passes_the_turn() {
    let mut board = GameBoard::from_lines(&lines(VALID_GRID)).unwrap();
    let (result, next) = TurnState::Player1Turn.resolve_shot(&mut board, pos(4, 0));
    assert!(matches!(result, GameBoardShotResult::Miss));
    assert!(matches!(next, TurnState::Player2Turn));
    let (result, next) = TurnState::Player2Turn.resolve_shot(&mut board, pos(5, 3));
    assert!(matches!(result, GameBoardShotResult::Miss));
    assert!(matches!(next, TurnState::Player1Turn));
}

#[test]
fn test_hit_grants_another_shot() {
    let mut board = GameBoard::from_lines(&lines(VALID_GRID)).unwrap();
    let (result, next) = TurnState::Player2Turn.resolve_shot(&mut board, pos(0, 0));
    assert!(matches!(result, GameBoardShotResult::Hit));
    assert!(matches!(next, TurnState::Player2Turn));
    let (result, next) = TurnState::Player2Turn.resolve_shot(&mut board, pos(0, 7));
    assert!(matches!(result, GameBoardShotResult::Sunk));
    assert!(matches!(next, TurnState::Player2Turn));
}

#[test]
fn test_player1_sweep_wins_without_missing() {
    // Player 1 sinks every Player 2 ship cell before ever missing.
    let mut player2_board = GameBoard::from_lines(&lines(VALID_GRID)).unwrap();
    let ship_cells: Vec<(u8, u8)> = vec![
        (0, 0),
        (1, 0),
        (2, 0),
        (3, 0),
        (5, 0),
        (6, 0),
        (7, 0),
        (9, 0),
        (9, 1),
        (9, 2),
        (9, 4),
        (9, 5),
        (0, 7),
        (9, 7),
        (9, 8),
        (0, 9),
        (2, 9),
        (4, 9),
        (6, 9),
        (7, 9),
    ];
    let mut state = TurnState::Player1Turn;
    for (x, y) in ship_cells {
        assert!(matches!(state, TurnState::Player1Turn));
        let (result, next) = state.resolve_shot(&mut player2_board, pos(x, y));
        assert!(!matches!(result, GameBoardShotResult::Miss));
        state = next;
    }
    assert!(matches!(state, TurnState::GameOver(GameResult::Player1Win)));
    assert_eq!(player2_board.hits_left(), 0);
}

#[test]
fn test_elimination_by_player2_wins_for_player2() {
    let mut player1_board = GameBoard::from_lines(&lines(VALID_GRID)).unwrap();
    let mut state = TurnState::Player2Turn;
    let mut all: Vec<(u8, u8)> = Vec::new();
    for y in 0..10u8 {
        for x in 0..10u8 {
            all.push((x, y));
        }
    }
    // Player 2 shoots every cell; misses pass the turn to Player 1, who
    // forfeits at once, which would end the game — so drive only Player 2's
    // shots here and keep the turn by hand after a miss.
    for (x, y) in all {
        if let TurnState::GameOver(_) = state {
            break;
        }
        let (_result, next) = TurnState::Player2Turn.resolve_shot(&mut player1_board, pos(x, y));
        state = next;
    }
    assert!(matches!(state, TurnState::GameOver(GameResult::Player2Win)));
    assert_eq!(player1_board.hits_left(), 0);
}
