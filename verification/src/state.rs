//! The states of the game, and the decisions that read or change them: when
//! the simulation runs, and when the game is over.

use crate::body::{all_in_play_area, chain_of, SnakePart};
use crate::collision::{collides, collision};
use crate::direction::SnakeHead;
use crate::grid::{in_play_area, Cell, CELL_COUNT};
use crate::movement::{after_tick, can_move, move_player, SnakeLast};
use vstd::prelude::*;

verus! {

/// The screens of the game. A game starts at the entrance and goes through
/// the main menu into play; play ends in `Gameover`.
#[derive(Clone, Copy, Debug, PartialEq, Eq, Hash, Structural)]
pub enum GameState {
    Entrance,
    Main,
    Gameplay,
    Gameover,
}

impl Default for GameState {
    fn default() -> (state: Self)
        ensures
            state == GameState::Entrance,
    {
        GameState::Entrance
    }
}

/// Whether play goes on or is paused. It matters only during
/// `GameState::Gameplay`.
#[derive(Clone, Copy, Debug, PartialEq, Eq, Hash, Structural)]
pub enum GameplayState {
    Running,
    Paused,
}

impl Default for GameplayState {
    fn default() -> (state: Self)
        ensures
            state == GameplayState::Running,
    {
        GameplayState::Running
    }
}

/// Whether the simulation runs: the game is in play and not paused.
pub open spec fn simulation_active(state: GameState, gameplay_state: GameplayState) -> bool {
    state == GameState::Gameplay && gameplay_state == GameplayState::Running
}

/// Whether the game ends: the snake is about to collide, or it fills the
/// whole play area.
pub open spec fn game_ends(parts: Seq<SnakePart>, head: SnakeHead, others: Seq<Cell>) -> bool {
    parts.len() == CELL_COUNT || collides(parts, head.0, others)
}

/// Whether the snake takes a step at this tick: the simulation runs and the
/// step does not collide.
pub open spec fn steps(
    state: GameState,
    gameplay_state: GameplayState,
    parts: Seq<SnakePart>,
    head: SnakeHead,
    others: Seq<Cell>,
) -> bool {
    simulation_active(state, gameplay_state) && !collides(parts, head.0, others)
}

/// Whether the simulation runs: the game is in play and not paused.
pub fn is_simulation_active(state: &GameState, gameplay_state: &GameplayState) -> (active: bool)
    ensures
        active == simulation_active(*state, *gameplay_state),
{
    *state == GameState::Gameplay && *gameplay_state == GameplayState::Running
}

/// The transition that the state of play asks for: to `Gameover` if the game
/// is in play and ends, and none otherwise. Once asked for, the transition is
/// not taken back: `Gameover` asks for nothing.
pub fn check_game_over(
    state: &GameState,
    head: &SnakeHead,
    parts: &Vec<SnakePart>,
    collidable_others: &Vec<Cell>,
) -> (next: Option<GameState>)
    ensures
        next == if *state == GameState::Gameplay && game_ends(
            parts@,
            *head,
            collidable_others@,
        ) {
            Some(GameState::Gameover)
        } else {
            None
        },
{
    if *state != GameState::Gameplay {
        return None;
    }
    let parts_count = parts.len();
    let collision = collision(head, parts, collidable_others);
    if parts_count == CELL_COUNT || collision {
        Some(GameState::Gameover)
    } else {
        None
    }
}

/// One tick of the simulation. The snake takes a step if the game is in
/// play, is not paused, and the step does not collide; otherwise nothing
/// changes. Returns whether the snake moved.
pub fn tick(
    state: &GameState,
    gameplay_state: &GameplayState,
    head: &SnakeHead,
    parts: &mut Vec<SnakePart>,
    collidable_others: &Vec<Cell>,
    last_part: &mut SnakeLast,
) -> (moved: bool)
    ensures
        moved == (steps(*state, *gameplay_state, old(parts)@, *head, collidable_others@)
            && can_move(chain_of(old(parts)@), head.0)),
        final(parts)@ == if steps(*state, *gameplay_state, old(parts)@, *head, collidable_others@) {
            after_tick(old(parts)@, head.0)
        } else {
            old(parts)@
        },
        *final(last_part) == if moved {
            SnakeLast(chain_of(old(parts)@).last().position)
        } else {
            *old(last_part)
        },
        all_in_play_area(old(parts)@) ==> all_in_play_area(final(parts)@),
        all_in_play_area(old(parts)@) && in_play_area(old(last_part).0) ==> in_play_area(
            final(last_part).0,
        ),
{
    if !is_simulation_active(state, gameplay_state) {
        return false;
    }
    if collision(head, parts, collidable_others) {
        return false;
    }
    move_player(head, parts, last_part)
}

} // verus!
