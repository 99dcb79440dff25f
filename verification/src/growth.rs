//! Growth: an eaten apple adds one segment to the snake, on the cell that the
//! tail left last.

use crate::atomic_counter_resource::AtomicCounter;
use crate::body::{
    all_in_play_area, ascending, chain_of, lemma_chain_of_ascending, lemma_chain_of_contains,
    SnakePart,
};
use crate::grid::in_play_area;
use crate::direction::Direction;
use crate::movement::{advanced, can_move, next_head, SnakeLast};
use vstd::prelude::*;

verus! {

/// Whether `ordinal` is at least every ordinal of `parts`, so that a segment
/// that carries it comes last in the chain.
pub open spec fn is_last_ordinal(parts: Seq<SnakePart>, ordinal: usize) -> bool {
    forall|i: int| 0 <= i < parts.len() ==> (#[trigger] parts[i]).ordinal <= ordinal
}

/// A segment whose ordinal no other exceeds becomes the tail: the chain of
/// the grown snake is the chain as it was, with the new segment behind it.
pub proof fn lemma_grown_at_tail(parts: Seq<SnakePart>, part: SnakePart)
    requires
        is_last_ordinal(parts, part.ordinal),
    ensures
        chain_of(parts.push(part)) == chain_of(parts).push(part),
{
    let chain = chain_of(parts);
    assert(parts.push(part).drop_last() =~= parts);
    if chain.len() > 0 {
        lemma_chain_of_contains(parts, chain.last());
        assert(chain.contains(chain.last()));
        let i = choose|i: int| 0 <= i < parts.len() && parts[i] == chain.last();
        assert(parts[i].ordinal <= part.ordinal);
    }
}

/// A snake that moves and then grows leaves no gap: the new tail stands where
/// the old tail stood before the step, so the grown snake holds the new cell
/// of the head and every cell that the snake held before.
pub proof fn lemma_grow_after_step(chain: Seq<SnakePart>, direction: Direction, ordinal: usize)
    requires
        ascending(chain),
        can_move(chain, direction),
        is_last_ordinal(chain, ordinal),
    ensures
        ({
            let grown = chain_of(
                advanced(chain, direction).push(
                    SnakePart { ordinal, position: chain.last().position },
                ),
            );
            &&& grown.len() == chain.len() + 1
            &&& grown[0].position == next_head(chain, direction)
            &&& forall|i: int|
                0 <= i < chain.len() ==> (#[trigger] grown[i + 1]).position == chain[i].position
        }),
{
    let after = advanced(chain, direction);
    let part = SnakePart { ordinal, position: chain.last().position };
    assert(is_last_ordinal(after, ordinal)) by {
        assert forall|i: int| 0 <= i < after.len() implies (#[trigger] after[i]).ordinal
            <= ordinal by {
            assert(after[i].ordinal == chain[i].ordinal);
        }
    }
    assert(ascending(after)) by {
        assert forall|i: int, j: int| 0 <= i < j < after.len() implies (#[trigger] after[i]).ordinal
            <= (#[trigger] after[j]).ordinal by {
            assert(after[i].ordinal == chain[i].ordinal && after[j].ordinal == chain[j].ordinal);
        }
    }
    lemma_grown_at_tail(after, part);
    lemma_chain_of_ascending(after);
    let grown = chain_of(after.push(part));
    assert(grown == after.push(part));
    assert forall|i: int| 0 <= i < chain.len() implies (#[trigger] grown[i + 1]).position
        == chain[i].position by {
        if i + 1 < chain.len() {
            assert(grown[i + 1] == after[i + 1]);
        }
    }
}

/// Adds one segment with the ordinal `ordinal`, on the cell that the tail
/// left last.
pub fn grow(parts: &mut Vec<SnakePart>, snake_last: &SnakeLast, ordinal: usize)
    ensures
        final(parts)@ == old(parts)@.push(SnakePart { ordinal, position: snake_last.0 }),
{
    parts.push(SnakePart { ordinal, position: snake_last.0 });
}

/// Grows the snake if an apple was eaten: exactly one segment is added, with
/// a fresh ordinal from `id`, on the cell that the tail left last. Without an
/// eaten apple nothing changes, and no ordinal is used up.
pub fn spawn_snake_part(
    parts: &mut Vec<SnakePart>,
    eaten: bool,
    snake_last: &SnakeLast,
    id: &AtomicCounter,
)
    ensures
        !eaten ==> final(parts)@ == old(parts)@,
        eaten ==> final(parts)@.len() == old(parts)@.len() + 1,
        eaten ==> final(parts)@.drop_last() == old(parts)@,
        eaten ==> final(parts)@.last().position == snake_last.0,
        all_in_play_area(old(parts)@) && in_play_area(snake_last.0) ==> all_in_play_area(
            final(parts)@,
        ),
{
    if eaten {
        let ordinal = id.get_id();
        grow(parts, snake_last, ordinal);
        proof {
            assert(parts@.drop_last() =~= old(parts)@);
        }
    }
}

} // verus!
