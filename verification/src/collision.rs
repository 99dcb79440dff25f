//! Collision detection: whether the next step of the head runs into the body
//! or into another occupied cell.

use crate::body::{chain_of, chain_order, SnakePart};
use crate::direction::{Direction, SnakeHead};
use crate::grid::Cell;
use vstd::prelude::*;

verus! {

/// The positions that one step would give the segments of `chain`: the head
/// one step ahead in `direction`, every other segment where the one before it
/// is now. The head's position is not held to the play area here.
pub open spec fn shifted(chain: Seq<SnakePart>, direction: Direction) -> Seq<(int, int)> {
    Seq::new(
        chain.len(),
        |i: int|
            if i == 0 {
                (chain[0].position.x + direction.dx(), chain[0].position.y + direction.dy())
            } else {
                (chain[i - 1].position.x as int, chain[i - 1].position.y as int)
            },
    )
}

/// Whether one step would put the head on a cell that a trailing segment
/// holds after the step.
pub open spec fn self_collision(chain: Seq<SnakePart>, direction: Direction) -> bool {
    exists|i: int|
        1 <= i < chain.len() && #[trigger] shifted(chain, direction)[i] == shifted(
            chain,
            direction,
        )[0]
}

/// Whether one step would put the head on one of the cells `others`.
pub open spec fn external_collision(
    chain: Seq<SnakePart>,
    direction: Direction,
    others: Seq<Cell>,
) -> bool {
    chain.len() > 0 && exists|k: int|
        0 <= k < others.len() && ((#[trigger] others[k]).x as int, others[k].y as int) == shifted(
            chain,
            direction,
        )[0]
}

/// Whether the next step of the snake made of `parts` collides, with itself
/// or with one of `others`. A snake without segments collides with nothing.
pub open spec fn collides(parts: Seq<SnakePart>, direction: Direction, others: Seq<Cell>) -> bool {
    self_collision(chain_of(parts), direction) || external_collision(
        chain_of(parts),
        direction,
        others,
    )
}

/// A snake of one segment never collides with itself, whatever its heading.
pub proof fn lemma_single_segment_no_self_collision(parts: Seq<SnakePart>, direction: Direction)
    requires
        parts.len() == 1,
    ensures
        !self_collision(chain_of(parts), direction),
{
    crate::body::lemma_chain_of_sorts(parts);
}

/// Where nothing else occupies a cell, a collision is a self-collision.
pub proof fn lemma_collides_alone(parts: Seq<SnakePart>, direction: Direction)
    ensures
        collides(parts, direction, Seq::empty()) == self_collision(chain_of(parts), direction),
{
}

/// The head never collides with the cell that it leaves: a self-collision is
/// always with a segment behind the head.
pub proof fn lemma_self_collision_is_with_body(chain: Seq<SnakePart>, direction: Direction)
    ensures
        self_collision(chain, direction) <==> exists|i: int|
            1 <= i < chain.len() - 1 && (#[trigger] chain[i]).position.x == chain[0].position.x
                + direction.dx() && chain[i].position.y == chain[0].position.y + direction.dy(),
{
    let s = shifted(chain, direction);
    if self_collision(chain, direction) {
        let i = choose|i: int| 1 <= i < chain.len() && #[trigger] s[i] == s[0];
        assert(i != 1);
        assert(chain[i - 1].position.x == chain[0].position.x + direction.dx());
    }
    if exists|i: int|
        1 <= i < chain.len() - 1 && (#[trigger] chain[i]).position.x == chain[0].position.x
            + direction.dx() && chain[i].position.y == chain[0].position.y + direction.dy() {
        let i = choose|i: int|
            1 <= i < chain.len() - 1 && (#[trigger] chain[i]).position.x == chain[0].position.x
                + direction.dx() && chain[i].position.y == chain[0].position.y + direction.dy();
        assert(s[i + 1] == s[0]);
    }
}

/// Whether the next step of the snake collides: with one of its own segments,
/// as they stand after the step, or with one of the other occupied cells.
pub fn collision(head: &SnakeHead, parts: &Vec<SnakePart>, collidable_others: &Vec<Cell>) -> (hit:
    bool)
    ensures
        hit == collides(parts@, head.0, collidable_others@),
{
    let chain = chain_order(parts);
    if chain.len() == 0 {
        return false;
    }
    let step = head.0.delta();
    let mut v: Vec<(i64, i64)> = Vec::new();
    let mut i: usize = 0;
    while i < chain.len()
        invariant
            i <= chain.len(),
            chain.len() > 0,
            step.0 == head.0.dx(),
            step.1 == head.0.dy(),
            v@.len() == i,
            forall|j: int|
                0 <= j < i ==> (#[trigger] v@[j]).0 == shifted(chain@, head.0)[j].0 && v@[j].1
                    == shifted(chain@, head.0)[j].1,
        decreases chain.len() - i,
    {
        if i == 0 {
            v.push(
                (
                    chain[0].position.x as i64 + step.0 as i64,
                    chain[0].position.y as i64 + step.1 as i64,
                ),
            );
        } else {
            v.push((chain[i - 1].position.x as i64, chain[i - 1].position.y as i64));
        }
        i = i + 1;
    }
    let target = v[0];
    let mut l: usize = 1;
    while l < v.len()
        invariant
            1 <= l <= v.len(),
            chain@ == chain_of(parts@),
            v@.len() == chain@.len(),
            target == v@[0],
            forall|j: int|
                0 <= j < v@.len() ==> (#[trigger] v@[j]).0 == shifted(chain@, head.0)[j].0 && v@[j].1
                    == shifted(chain@, head.0)[j].1,
            forall|j: int|
                1 <= j < l ==> #[trigger] shifted(chain@, head.0)[j] != shifted(chain@, head.0)[0],
        decreases v.len() - l,
    {
        if v[l].0 == target.0 && v[l].1 == target.1 {
            proof {
                assert(shifted(chain@, head.0)[l as int] == shifted(chain@, head.0)[0]);
            }
            return true;
        }
        l = l + 1;
    }
    let mut k: usize = 0;
    while k < collidable_others.len()
        invariant
            k <= collidable_others.len(),
            chain@ == chain_of(parts@),
            !self_collision(chain@, head.0),
            chain@.len() > 0,
            target.0 == shifted(chain@, head.0)[0].0,
            target.1 == shifted(chain@, head.0)[0].1,
            forall|j: int|
                0 <= j < k ==> ((#[trigger] collidable_others@[j]).x as int, collidable_others@[j].y as int)
                    != shifted(chain@, head.0)[0],
        decreases collidable_others.len() - k,
    {
        let other = collidable_others[k];
        if other.x as i64 == target.0 && other.y as i64 == target.1 {
            proof {
                assert((collidable_others@[k as int].x as int, collidable_others@[k as int].y as int)
                    == shifted(chain@, head.0)[0]);
            }
            return true;
        }
        k = k + 1;
    }
    false
}

} // verus!
