//! Movement: one step of the snake per tick. The head advances one cell and
//! is held to the play area; the other segments follow their leaders, unless
//! the head could not move, in which case the whole body stays where it is.

use crate::body::{
    all_in_play_area, chain_of, lemma_chain_of_contains, occupied, sort_by_ordinal, SnakePart,
};
use crate::direction::{Direction, SnakeHead};
use crate::grid::{clamp_to_play_area, clamped, in_play_area, Cell};
use vstd::prelude::*;

verus! {

/// The cell that the tail left at the latest step in which the snake moved.
/// A segment that the snake grows is put there.
#[derive(Clone, Copy, Debug, PartialEq, Eq, Hash, Structural)]
pub struct SnakeLast(pub Cell);

impl Default for SnakeLast {
    /// The centre of the grid.
    fn default() -> (last: Self)
        ensures
            last == SnakeLast(Cell { x: 0, y: 0 }),
    {
        SnakeLast(Cell { x: 0, y: 0 })
    }
}

/// Where the head of `chain` stands after a step in `direction`: one cell
/// ahead, clamped into the play area.
pub open spec fn next_head(chain: Seq<SnakePart>, direction: Direction) -> Cell {
    clamped(chain[0].position.x + direction.dx(), chain[0].position.y + direction.dy())
}

/// Whether a step in `direction` moves the head of `chain` at all.
pub open spec fn can_move(chain: Seq<SnakePart>, direction: Direction) -> bool {
    chain.len() > 0 && next_head(chain, direction) != chain[0].position
}

/// `chain` after a step: the head at its next cell, every other segment on
/// the cell that the segment before it held. Ordinals stay.
pub open spec fn advanced(chain: Seq<SnakePart>, direction: Direction) -> Seq<SnakePart> {
    Seq::new(
        chain.len(),
        |i: int|
            SnakePart {
                ordinal: chain[i].ordinal,
                position: if i == 0 {
                    next_head(chain, direction)
                } else {
                    chain[i - 1].position
                },
            },
    )
}

/// The segments after one tick, in chain order: advanced if the head can
/// move, and as they were if it cannot.
pub open spec fn after_tick(parts: Seq<SnakePart>, direction: Direction) -> Seq<SnakePart> {
    if can_move(chain_of(parts), direction) {
        advanced(chain_of(parts), direction)
    } else {
        chain_of(parts)
    }
}

/// Where the head does not run into the boundary, a step moves it by exactly
/// one cell in its direction, and every other segment takes the cell that the
/// segment before it held: the snake then occupies the new cell of the head
/// and the cells that all segments but the tail held before.
pub proof fn lemma_step_shifts_chain(chain: Seq<SnakePart>, direction: Direction)
    requires
        chain.len() > 0,
        -15 <= chain[0].position.x + direction.dx() < 15,
        -15 <= chain[0].position.y + direction.dy() < 15,
    ensures
        can_move(chain, direction),
        advanced(chain, direction).len() == chain.len(),
        advanced(chain, direction)[0].position.x == chain[0].position.x + direction.dx(),
        advanced(chain, direction)[0].position.y == chain[0].position.y + direction.dy(),
        forall|i: int|
            1 <= i < chain.len() ==> (#[trigger] advanced(chain, direction)[i]).position == chain[i
                - 1].position,
        forall|i: int|
            0 <= i < chain.len() ==> (#[trigger] advanced(chain, direction)[i]).ordinal
                == chain[i].ordinal,
        forall|c: Cell|
            occupied(advanced(chain, direction), c) <==> (c == next_head(chain, direction)
                || occupied(chain.drop_last(), c)),
{
    let after = advanced(chain, direction);
    let front = chain.drop_last();
    assert forall|c: Cell| occupied(after, c) implies (c == next_head(chain, direction)
        || occupied(front, c)) by {
        let i = choose|i: int| 0 <= i < after.len() && (#[trigger] after[i]).position == c;
        if i > 0 {
            assert(front[i - 1].position == c);
        }
    }
    assert forall|c: Cell|
        (c == next_head(chain, direction) || occupied(front, c)) implies occupied(after, c) by {
        if c == next_head(chain, direction) {
            assert(after[0].position == c);
        } else {
            let i = choose|i: int| 0 <= i < front.len() && (#[trigger] front[i]).position == c;
            assert(after[i + 1].position == c);
        }
    }
}

/// The chain of a snake that lies in the play area lies in the play area.
pub proof fn lemma_chain_of_in_play_area(parts: Seq<SnakePart>)
    requires
        all_in_play_area(parts),
    ensures
        all_in_play_area(chain_of(parts)),
{
    let chain = chain_of(parts);
    assert forall|i: int| 0 <= i < chain.len() implies in_play_area(
        (#[trigger] chain[i]).position,
    ) by {
        lemma_chain_of_contains(parts, chain[i]);
        assert(chain.contains(chain[i]));
        let j = choose|j: int| 0 <= j < parts.len() && parts[j] == chain[i];
        assert(in_play_area(parts[j].position));
    }
}

/// A step keeps the snake in the play area.
pub proof fn lemma_after_tick_in_play_area(parts: Seq<SnakePart>, direction: Direction)
    requires
        all_in_play_area(parts),
    ensures
        all_in_play_area(after_tick(parts, direction)),
{
    let chain = chain_of(parts);
    lemma_chain_of_in_play_area(parts);
    if can_move(chain, direction) {
        let after = advanced(chain, direction);
        assert forall|i: int| 0 <= i < after.len() implies in_play_area(
            (#[trigger] after[i]).position,
        ) by {
            if i > 0 {
                assert(in_play_area(chain[i - 1].position));
            }
        }
    }
}

/// Moves the snake by one step. The segments are put in chain order. The
/// head advances one cell in its direction and is clamped into the play area.
/// If that moves it, every other segment takes the cell that the segment
/// before it held, and the cell that the tail held is recorded in
/// `last_part`. If it does not, no segment moves and `last_part` stays.
/// Returns whether the snake moved.
pub fn move_player(head: &SnakeHead, parts: &mut Vec<SnakePart>, last_part: &mut SnakeLast) -> (moved:
    bool)
    ensures
        moved == can_move(chain_of(old(parts)@), head.0),
        final(parts)@ == after_tick(old(parts)@, head.0),
        *final(last_part) == if moved {
            SnakeLast(chain_of(old(parts)@).last().position)
        } else {
            *old(last_part)
        },
        all_in_play_area(old(parts)@) ==> all_in_play_area(final(parts)@),
        all_in_play_area(old(parts)@) && in_play_area(old(last_part).0) ==> in_play_area(
            final(last_part).0,
        ),
{
    proof {
        if all_in_play_area(parts@) {
            lemma_after_tick_in_play_area(parts@, head.0);
            lemma_chain_of_in_play_area(parts@);
        }
    }
    sort_by_ordinal(parts);
    if parts.len() == 0 {
        return false;
    }
    let ghost chain = parts@;
    let step = head.0.delta();
    let target = clamp_to_play_area(
        parts[0].position.x as i64 + step.0 as i64,
        parts[0].position.y as i64 + step.1 as i64,
    );
    if target == parts[0].position {
        return false;
    }
    let mut last = target;
    let mut idx: usize = 0;
    while idx < parts.len()
        invariant
            idx <= parts.len(),
            parts@.len() == chain.len(),
            chain.len() > 0,
            target == next_head(chain, head.0),
            last == if idx == 0 {
                target
            } else {
                chain[idx - 1].position
            },
            forall|i: int| 0 <= i < idx ==> #[trigger] parts@[i] == advanced(chain, head.0)[i],
            forall|i: int| idx <= i < parts@.len() ==> #[trigger] parts@[i] == chain[i],
        decreases parts.len() - idx,
    {
        let current = parts[idx].position;
        let ordinal = parts[idx].ordinal;
        parts[idx] = SnakePart { ordinal, position: last };
        last = current;
        idx = idx + 1;
    }
    last_part.0 = last;
    proof {
        assert(parts@ =~= advanced(chain, head.0));
    }
    true
}

} // verus!
