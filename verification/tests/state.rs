use snake::body::SnakePart;
use snake::direction::{Direction, SnakeHead};
use snake::grid::{wall_cells, Cell};
use snake::movement::SnakeLast;
use snake::state::{check_game_over, is_simulation_active, tick, GameState, GameplayState};

fn board_of(count: usize) -> Vec<SnakePart> {
    // Winds through the play area row by row, the head at the upper end.
    let mut parts = Vec::new();
    for i in 0..count {
        let row = (i / 30) as i32;
        let col = (i % 30) as i32;
        let x = if row % 2 == 0 { col - 15 } else { 14 - col };
        parts.push(SnakePart { ordinal: count - 1 - i, position: Cell { x, y: row - 15 } });
    }
    parts
}

#[test]
fn a_game_starts_at_the_entrance_and_runs() {
    assert_eq!(GameState::default(), GameState::Entrance);
    assert_eq!(GameplayState::default(), GameplayState::Running);
}

#[test]
fn the_simulation_runs_in_play_only() {
    assert!(is_simulation_active(&GameState::Gameplay, &GameplayState::Running));
    assert!(!is_simulation_active(&GameState::Gameplay, &GameplayState::Paused));
    assert!(!is_simulation_active(&GameState::Entrance, &GameplayState::Running));
    assert!(!is_simulation_active(&GameState::Main, &GameplayState::Running));
    assert!(!is_simulation_active(&GameState::Gameover, &GameplayState::Running));
}

#[test]
fn a_full_board_ends_the_game() {
    let parts = board_of(900);
    let head = SnakeHead(Direction::Up);
    assert_eq!(
        check_game_over(&GameState::Gameplay, &head, &parts, &Vec::new()),
        Some(GameState::Gameover)
    );
    let head = SnakeHead(Direction::Left);
    assert_eq!(
        check_game_over(&GameState::Gameplay, &head, &parts, &wall_cells()),
        Some(GameState::Gameover)
    );
}

#[test]
fn a_board_that_is_almost_full_goes_on() {
    let parts = board_of(899);
    let head = SnakeHead(Direction::Up);
    assert_eq!(check_game_over(&GameState::Gameplay, &head, &parts, &Vec::new()), None);
}

#[test]
fn a_collision_ends_the_game() {
    let parts = vec![
        SnakePart { ordinal: 0, position: Cell { x: 1, y: 1 } },
        SnakePart { ordinal: 1, position: Cell { x: 0, y: 1 } },
        SnakePart { ordinal: 2, position: Cell { x: 0, y: 0 } },
        SnakePart { ordinal: 3, position: Cell { x: 1, y: 0 } },
        SnakePart { ordinal: 4, position: Cell { x: 2, y: 0 } },
    ];
    assert_eq!(
        check_game_over(&GameState::Gameplay, &SnakeHead(Direction::Down), &parts, &Vec::new()),
        Some(GameState::Gameover)
    );
    assert_eq!(
        check_game_over(&GameState::Gameplay, &SnakeHead(Direction::Up), &parts, &Vec::new()),
        None
    );
}

#[test]
fn the_game_ends_during_play_only() {
    let parts = board_of(900);
    let head = SnakeHead(Direction::Up);
    for state in [GameState::Entrance, GameState::Main, GameState::Gameover] {
        assert_eq!(check_game_over(&state, &head, &parts, &Vec::new()), None);
    }
}

#[test]
fn a_tick_moves_the_snake_during_play() {
    let head = SnakeHead(Direction::Right);
    let mut parts = vec![SnakePart { ordinal: 0, position: Cell { x: 0, y: 0 } }];
    let mut last = SnakeLast::default();
    let moved = tick(
        &GameState::Gameplay,
        &GameplayState::Running,
        &head,
        &mut parts,
        &wall_cells(),
        &mut last,
    );
    assert!(moved);
    assert_eq!(parts, vec![SnakePart { ordinal: 0, position: Cell { x: 1, y: 0 } }]);
    assert_eq!(check_game_over(&GameState::Gameplay, &head, &parts, &wall_cells()), None);
}

#[test]
fn a_paused_game_does_not_move() {
    let head = SnakeHead(Direction::Right);
    let mut parts = vec![
        SnakePart { ordinal: 1, position: Cell { x: -1, y: 0 } },
        SnakePart { ordinal: 0, position: Cell { x: 0, y: 0 } },
    ];
    let before = parts.clone();
    let mut last = SnakeLast(Cell { x: 9, y: 9 });
    for (state, gameplay) in [
        (GameState::Gameplay, GameplayState::Paused),
        (GameState::Main, GameplayState::Running),
        (GameState::Gameover, GameplayState::Running),
        (GameState::Entrance, GameplayState::Paused),
    ] {
        assert!(!tick(&state, &gameplay, &head, &mut parts, &Vec::new(), &mut last));
        assert_eq!(parts, before);
        assert_eq!(last, SnakeLast(Cell { x: 9, y: 9 }));
    }
}

#[test]
fn a_colliding_snake_does_not_move() {
    let head = SnakeHead(Direction::Down);
    let mut parts = vec![
        SnakePart { ordinal: 0, position: Cell { x: 1, y: 1 } },
        SnakePart { ordinal: 1, position: Cell { x: 0, y: 1 } },
        SnakePart { ordinal: 2, position: Cell { x: 0, y: 0 } },
        SnakePart { ordinal: 3, position: Cell { x: 1, y: 0 } },
        SnakePart { ordinal: 4, position: Cell { x: 2, y: 0 } },
    ];
    let before = parts.clone();
    let mut last = SnakeLast::default();
    assert!(!tick(
        &GameState::Gameplay,
        &GameplayState::Running,
        &head,
        &mut parts,
        &Vec::new(),
        &mut last
    ));
    assert_eq!(parts, before);
    assert_eq!(last, SnakeLast::default());
}
