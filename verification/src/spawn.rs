//! The start of a game: a head on a random cell of the play area, with a
//! random heading.

use crate::atomic_counter_resource::AtomicCounter;
use crate::body::SnakePart;
use crate::direction::{Direction, SnakeHead};
use crate::grid::{in_play_area, to_world, world_cell, PLAY_SIDE};
use crate::rng_resource::RngResource;
use vstd::prelude::*;

verus! {

/// The head that three draws and an ordinal give: on the cell that `x_draw`
/// and `y_draw` select, with the heading that `direction_draw` selects.
pub fn head_from_draws(x_draw: u64, y_draw: u64, direction_draw: u64, ordinal: usize) -> (spawned: (
    SnakeHead,
    SnakePart,
))
    requires
        x_draw < PLAY_SIDE,
        y_draw < PLAY_SIDE,
        direction_draw < 4,
    ensures
        spawned.0 == SnakeHead(Direction::of_index(direction_draw as int)),
        spawned.1 == (SnakePart { ordinal, position: world_cell(x_draw as int, y_draw as int) }),
        in_play_area(spawned.1.position),
{
    let position = to_world(x_draw as i32, y_draw as i32);
    (SnakeHead(Direction::from_index(direction_draw)), SnakePart { ordinal, position })
}

/// A new head: its cell and its heading are drawn from `rng`, its ordinal is
/// taken from `id`. Whatever is drawn, the head lies in the play area.
pub fn spawn_head(rng: &RngResource, id: &AtomicCounter) -> (spawned: (SnakeHead, SnakePart))
    ensures
        in_play_area(spawned.1.position),
{
    let x_snake_head = rng.random_in_range(0..PLAY_SIDE as u64);
    let y_snake_head = rng.random_in_range(0..PLAY_SIDE as u64);
    let direction = rng.random_in_range(0..4);
    head_from_draws(x_snake_head, y_snake_head, direction, id.get_id())
}

} // verus!
