//! The apple: at most one lies on the grid. It is eaten when the head stands
//! on its cell, and a new one is put on a cell that the snake does not hold.

use crate::body::{is_occupied, occupied, SnakePart};
use crate::grid::{
    ascending_row_major, in_play_area, lemma_scan_skip, lemma_scan_step, scanned, to_world,
    world_cell, Cell, CELL_COUNT, PLAY_SIDE,
};
use crate::rng_resource::RngResource;
use vstd::prelude::*;

verus! {

/// The apple and the cell on which it lies.
#[derive(Clone, Copy, Debug, PartialEq, Eq, Hash, Structural)]
pub struct Apple {
    pub position: Cell,
}

/// How often `spawn_apple` samples the whole grid before it draws among the
/// free cells only.
pub const SPAWN_ATTEMPTS: u32 = 16;

/// Whether an apple can be put on `c`: the cell lies in the play area and no
/// segment of `parts` holds it.
pub open spec fn free(parts: Seq<SnakePart>, c: Cell) -> bool {
    in_play_area(c) && !occupied(parts, c)
}

/// Whether the snake leaves any cell of the play area free.
pub open spec fn has_free_cell(parts: Seq<SnakePart>) -> bool {
    exists|c: Cell| free(parts, c)
}

/// Whether the head, at `head`, eats the apple: there is an apple, and it
/// lies on exactly that cell.
pub fn check_eaten_apple(head: &Cell, apple: &Option<Apple>) -> (eaten: bool)
    ensures
        eaten == (*apple == Some(Apple { position: *head })),
{
    match apple {
        Some(apple) => apple.position == *head,
        None => false,
    }
}

/// Takes the apple off the grid if it was eaten.
pub fn despawn_apple(apple: &mut Option<Apple>, eaten: bool)
    ensures
        *final(apple) == if eaten {
            None
        } else {
            *old(apple)
        },
{
    if eaten {
        *apple = None;
    }
}

/// The cell of the play area that a pair of draws from `0 .. PLAY_SIDE`
/// selects.
pub fn cell_from_draws(x_draw: u64, y_draw: u64) -> (c: Cell)
    requires
        x_draw < PLAY_SIDE,
        y_draw < PLAY_SIDE,
    ensures
        c == world_cell(x_draw as int, y_draw as int),
        in_play_area(c),
{
    to_world(x_draw as i32, y_draw as i32)
}

/// The apple that a pair of draws gives: on the cell that they select, if
/// that cell is free, and none if the snake holds it.
pub fn place_apple(snake_parts: &Vec<SnakePart>, x_draw: u64, y_draw: u64) -> (apple: Option<Apple>)
    requires
        x_draw < PLAY_SIDE,
        y_draw < PLAY_SIDE,
    ensures
        apple == if free(snake_parts@, world_cell(x_draw as int, y_draw as int)) {
            Some(Apple { position: world_cell(x_draw as int, y_draw as int) })
        } else {
            None
        },
{
    let cell = cell_from_draws(x_draw, y_draw);
    if is_occupied(snake_parts, &cell) {
        None
    } else {
        Some(Apple { position: cell })
    }
}

/// The free cells of the play area: each once, in row-major order.
pub fn free_cells(snake_parts: &Vec<SnakePart>) -> (cells: Vec<Cell>)
    ensures
        forall|c: Cell|
            #![trigger cells@.contains(c)]
            #![trigger free(snake_parts@, c)]
            cells@.contains(c) <==> free(snake_parts@, c),
        ascending_row_major(cells@),
        cells@.len() <= CELL_COUNT,
{
    let ghost keep = |c: Cell| free(snake_parts@, c);
    let mut cells: Vec<Cell> = Vec::new();
    let mut row: i32 = 0;
    while row < PLAY_SIDE
        invariant
            0 <= row <= PLAY_SIDE,
            keep == |c: Cell| free(snake_parts@, c),
            cells@.len() <= row * PLAY_SIDE,
            scanned(cells@, keep, world_cell(0, row as int)),
        decreases PLAY_SIDE - row,
    {
        let mut col: i32 = 0;
        while col < PLAY_SIDE
            invariant
                0 <= row < PLAY_SIDE,
                0 <= col <= PLAY_SIDE,
                keep == |c: Cell| free(snake_parts@, c),
                cells@.len() <= row * PLAY_SIDE + col,
                scanned(cells@, keep, world_cell(col as int, row as int)),
            decreases PLAY_SIDE - col,
        {
            let cell = to_world(col, row);
            proof {
                lemma_scan_step(cells@, keep, cell, world_cell(col + 1, row as int));
            }
            if !is_occupied(snake_parts, &cell) {
                cells.push(cell);
            }
            col = col + 1;
        }
        proof {
            lemma_scan_skip(cells@, keep, world_cell(col as int, row as int), world_cell(0, row + 1));
        }
        row = row + 1;
    }
    proof {
        assert forall|c: Cell| free(snake_parts@, c) implies cells@.contains(c) by {
            assert(keep(c));
        }
        assert forall|c: Cell| cells@.contains(c) implies free(snake_parts@, c) by {
            assert(keep(c));
        }
    }
    cells
}

/// Puts an apple on the grid if there is none and the snake leaves a cell
/// free. Every free cell is equally likely to get it.
///
/// The whole grid is sampled until a free cell is hit, at most
/// `SPAWN_ATTEMPTS` times; after that the apple is drawn among the free cells
/// only, so the call ends whatever the generator returns. With an apple on
/// the grid, or with no free cell, nothing changes.
pub fn spawn_apple(apple: &mut Option<Apple>, snake_parts: &Vec<SnakePart>, rng: &RngResource)
    ensures
        *old(apple) is Some ==> *final(apple) == *old(apple),
        *old(apple) is None ==> (*final(apple) is Some <==> has_free_cell(snake_parts@)),
        *old(apple) is None && *final(apple) is Some ==> free(
            snake_parts@,
            (*final(apple))->0.position,
        ),
{
    if apple.is_some() {
        return ;
    }
    let mut attempts: u32 = 0;
    while attempts < SPAWN_ATTEMPTS
        invariant
            attempts <= SPAWN_ATTEMPTS,
            *apple == *old(apple),
            *apple is None,
        decreases SPAWN_ATTEMPTS - attempts,
    {
        let x = rng.random_in_range(0..PLAY_SIDE as u64);
        let y = rng.random_in_range(0..PLAY_SIDE as u64);
        let placed = place_apple(snake_parts, x, y);
        if placed.is_some() {
            *apple = placed;
            return ;
        }
        attempts = attempts + 1;
    }
    let cells = free_cells(snake_parts);
    if cells.len() > 0 {
        let k = rng.random_in_range(0..cells.len() as u64);
        let cell = cells[k as usize];
        proof {
            assert(cells@.contains(cell));
        }
        *apple = Some(Apple { position: cell });
    } else {
        proof {
            assert forall|c: Cell| !free(snake_parts@, c) by {
                assert(!cells@.contains(c));
            }
        }
    }
}

} // verus!
