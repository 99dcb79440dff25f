//! The snake's body: segments that carry an ordinal, and the chain order that
//! the ordinals define. The segment with the lowest ordinal is the head, the
//! one with the highest is the tail.

use crate::grid::{in_play_area, Cell};
use vstd::prelude::*;

verus! {

/// One segment of the snake.
#[derive(Clone, Copy, Debug, PartialEq, Eq, Hash, Structural)]
pub struct SnakePart {
    /// Place of the segment in the chain: lower ordinals are nearer the head.
    pub ordinal: usize,
    /// The cell that the segment occupies.
    pub position: Cell,
}

/// Whether the ordinals of `chain` never decrease from one segment to the
/// next.
pub open spec fn ascending(chain: Seq<SnakePart>) -> bool {
    forall|i: int, j: int|
        0 <= i < j < chain.len() ==> (#[trigger] chain[i]).ordinal <= (#[trigger] chain[j]).ordinal
}

/// Whether no two segments of `parts` share an ordinal.
pub open spec fn distinct_ordinals(parts: Seq<SnakePart>) -> bool {
    forall|i: int, j: int|
        0 <= i < j < parts.len() ==> (#[trigger] parts[i]).ordinal != (#[trigger] parts[j]).ordinal
}

/// `chain`, which is ascending, with `part` put behind the last segment whose
/// ordinal is not greater than its own.
pub open spec fn insert_part(chain: Seq<SnakePart>, part: SnakePart) -> Seq<SnakePart>
    decreases chain.len(),
{
    if chain.len() == 0 {
        seq![part]
    } else if chain.last().ordinal <= part.ordinal {
        chain.push(part)
    } else {
        insert_part(chain.drop_last(), part).push(chain.last())
    }
}

/// The segments of `parts` in chain order: by ascending ordinal, segments of
/// equal ordinal in the order in which `parts` holds them.
pub open spec fn chain_of(parts: Seq<SnakePart>) -> Seq<SnakePart>
    decreases parts.len(),
{
    if parts.len() == 0 {
        Seq::empty()
    } else {
        insert_part(chain_of(parts.drop_last()), parts.last())
    }
}

/// Whether some segment of `parts` occupies the cell `c`.
pub open spec fn occupied(parts: Seq<SnakePart>, c: Cell) -> bool {
    exists|i: int| 0 <= i < parts.len() && (#[trigger] parts[i]).position == c
}

/// Whether every segment of `parts` lies in the play area.
pub open spec fn all_in_play_area(parts: Seq<SnakePart>) -> bool {
    forall|i: int| 0 <= i < parts.len() ==> in_play_area((#[trigger] parts[i]).position)
}

/// Where `part` goes in the ascending `chain`: behind every segment whose
/// ordinal is not greater, before every segment whose ordinal is greater.
pub open spec fn insertion_point(chain: Seq<SnakePart>, part: SnakePart, k: int) -> bool {
    &&& 0 <= k <= chain.len()
    &&& forall|i: int| k <= i < chain.len() ==> (#[trigger] chain[i]).ordinal > part.ordinal
    &&& k > 0 ==> chain[k - 1].ordinal <= part.ordinal
}

/// Ascending order is kept when the last segment is left out.
proof fn lemma_drop_last_ascending(chain: Seq<SnakePart>)
    requires
        chain.len() > 0,
        ascending(chain),
    ensures
        ascending(chain.drop_last()),
        distinct_ordinals(chain) ==> distinct_ordinals(chain.drop_last()),
{
    let front = chain.drop_last();
    assert forall|i: int, j: int| 0 <= i < j < front.len() implies (#[trigger] front[i]).ordinal
        <= (#[trigger] front[j]).ordinal by {
        assert(front[i] == chain[i] && front[j] == chain[j]);
    }
    if distinct_ordinals(chain) {
        assert forall|i: int, j: int| 0 <= i < j < front.len() implies (#[trigger] front[i]).ordinal
            != (#[trigger] front[j]).ordinal by {
            assert(front[i] == chain[i] && front[j] == chain[j]);
        }
    }
}

/// Inserting a segment at its insertion point is what `insert_part` does.
pub proof fn lemma_insert_part_at(chain: Seq<SnakePart>, part: SnakePart, k: int)
    requires
        insertion_point(chain, part, k),
    ensures
        insert_part(chain, part) == chain.insert(k, part),
    decreases chain.len(),
{
    if chain.len() == 0 {
        assert(chain.insert(k, part) =~= seq![part]);
    } else if chain.last().ordinal <= part.ordinal {
        assert(k == chain.len()) by {
            if k < chain.len() {
                assert(chain[chain.len() - 1].ordinal > part.ordinal);
            }
        }
        assert(chain.insert(k, part) =~= chain.push(part));
    } else {
        let front = chain.drop_last();
        assert(k < chain.len());
        assert(insertion_point(front, part, k)) by {
            assert forall|i: int| k <= i < front.len() implies (#[trigger] front[i]).ordinal
                > part.ordinal by {
                assert(front[i] == chain[i]);
            }
        }
        lemma_insert_part_at(front, part, k);
        assert(chain.insert(k, part) =~= front.insert(k, part).push(chain.last()));
    }
}

/// An ascending chain has an insertion point for every segment.
pub proof fn lemma_insertion_point_exists(chain: Seq<SnakePart>, part: SnakePart) -> (k: int)
    requires
        ascending(chain),
    ensures
        insertion_point(chain, part, k),
    decreases chain.len(),
{
    if chain.len() == 0 {
        0
    } else if chain.last().ordinal <= part.ordinal {
        chain.len() as int
    } else {
        let front = chain.drop_last();
        lemma_drop_last_ascending(chain);
        let k = lemma_insertion_point_exists(front, part);
        assert forall|i: int| k <= i < chain.len() implies (#[trigger] chain[i]).ordinal
            > part.ordinal by {
            if i < front.len() {
                assert(front[i] == chain[i]);
            }
        }
        assert(k > 0 ==> chain[k - 1] == front[k - 1]);
        k
    }
}

/// Inserting a segment keeps an ascending chain ascending, makes it one
/// longer, and adds that segment and no other.
pub proof fn lemma_insert_part_sorts(chain: Seq<SnakePart>, part: SnakePart)
    requires
        ascending(chain),
    ensures
        ascending(insert_part(chain, part)),
        insert_part(chain, part).len() == chain.len() + 1,
        insert_part(chain, part).to_multiset() == chain.to_multiset().insert(part),
{
    let k = lemma_insertion_point_exists(chain, part);
    lemma_insert_part_at(chain, part, k);
    let longer = chain.insert(k, part);
    chain.insert_ensures(k, part);
    assert forall|i: int, j: int| 0 <= i < j < longer.len() implies (#[trigger] longer[i]).ordinal
        <= (#[trigger] longer[j]).ordinal by {
        let a = if i < k {
            i
        } else {
            i - 1
        };
        let b = if j < k {
            j
        } else {
            j - 1
        };
        if i != k {
            assert(longer[i] == chain[a]);
        }
        if j != k {
            assert(longer[j] == chain[b]);
        }
        if i == k {
            assert(chain[b].ordinal > part.ordinal);
        } else if j == k {
            assert(chain[a].ordinal <= chain[k - 1].ordinal);
        } else {
            assert(chain[a].ordinal <= chain[b].ordinal);
        }
    }
    longer.to_multiset_ensures();
    assert(longer.remove(k) =~= chain);
    assert(longer.to_multiset().remove(part) =~= chain.to_multiset());
    assert(longer.to_multiset().count(part) > 0) by {
        assert(longer[k] == part);
        assert(longer.contains(part));
    }
    assert(longer.to_multiset() =~= chain.to_multiset().insert(part));
}

/// The chain order is ascending, and holds the given segments, each as often
/// as it was given.
pub proof fn lemma_chain_of_sorts(parts: Seq<SnakePart>)
    ensures
        ascending(chain_of(parts)),
        chain_of(parts).len() == parts.len(),
        chain_of(parts).to_multiset() == parts.to_multiset(),
    decreases parts.len(),
{
    if parts.len() == 0 {
        assert(chain_of(parts) =~= parts);
    } else {
        let front = parts.drop_last();
        lemma_chain_of_sorts(front);
        lemma_insert_part_sorts(chain_of(front), parts.last());
        front.to_multiset_ensures();
        assert(front.push(parts.last()) =~= parts);
    }
}

/// Segments that already stand in ascending order are their own chain order.
pub proof fn lemma_chain_of_ascending(parts: Seq<SnakePart>)
    requires
        ascending(parts),
    ensures
        chain_of(parts) == parts,
    decreases parts.len(),
{
    if parts.len() == 0 {
        assert(chain_of(parts) =~= parts);
    } else {
        let front = parts.drop_last();
        lemma_drop_last_ascending(parts);
        lemma_chain_of_ascending(front);
        if front.len() > 0 {
            assert(front.last() == parts[parts.len() - 2]);
            assert(front.last().ordinal <= parts.last().ordinal);
        }
        assert(front.push(parts.last()) =~= parts);
    }
}

/// Sorting is idempotent: the chain order of a chain is that chain.
pub proof fn lemma_chain_of_idempotent(parts: Seq<SnakePart>)
    ensures
        chain_of(chain_of(parts)) == chain_of(parts),
{
    lemma_chain_of_sorts(parts);
    lemma_chain_of_ascending(chain_of(parts));
}

/// Segments of which no two share an ordinal can be put in ascending order
/// in one way only.
pub proof fn lemma_ascending_unique(x: Seq<SnakePart>, y: Seq<SnakePart>)
    requires
        ascending(x),
        ascending(y),
        distinct_ordinals(x),
        x.to_multiset() == y.to_multiset(),
    ensures
        x == y,
    decreases x.len(),
{
    x.to_multiset_ensures();
    y.to_multiset_ensures();
    assert(x.len() == y.len());
    if x.len() == 0 {
        assert(x =~= y);
    } else {
        let end = x.len() - 1;
        assert(y.contains(y[end]));
        assert(y.to_multiset().count(y[end]) > 0);
        assert(x.contains(y[end]));
        let i = choose|i: int| 0 <= i < x.len() && x[i] == y[end];
        assert(x.contains(x[end]));
        assert(x.to_multiset().count(x[end]) > 0);
        assert(y.contains(x[end]));
        let j = choose|j: int| 0 <= j < y.len() && y[j] == x[end];
        assert(x[i].ordinal <= x[end].ordinal);
        assert(y[j].ordinal <= y[end].ordinal);
        assert(i == end);
        assert(x.drop_last() =~= x.remove(end));
        assert(y.drop_last() =~= y.remove(end));
        lemma_drop_last_ascending(x);
        lemma_drop_last_ascending(y);
        lemma_ascending_unique(x.drop_last(), y.drop_last());
        assert(x =~= x.drop_last().push(x[end]));
        assert(y =~= y.drop_last().push(y[end]));
    }
}

/// The chain order is the only ascending order of segments of which no two
/// share an ordinal: it does not depend on the order in which they are given.
pub proof fn lemma_chain_of_unique(parts: Seq<SnakePart>, chain: Seq<SnakePart>)
    requires
        ascending(chain),
        distinct_ordinals(chain),
        chain.to_multiset() == parts.to_multiset(),
    ensures
        chain_of(parts) == chain,
{
    lemma_chain_of_sorts(parts);
    lemma_ascending_unique(chain, chain_of(parts));
}

/// The chain holds a segment exactly if the segments as given hold it.
pub proof fn lemma_chain_of_contains(parts: Seq<SnakePart>, part: SnakePart)
    ensures
        chain_of(parts).contains(part) == parts.contains(part),
{
    let chain = chain_of(parts);
    lemma_chain_of_sorts(parts);
    parts.to_multiset_ensures();
    chain.to_multiset_ensures();
    assert(parts.contains(part) <==> parts.to_multiset().count(part) > 0);
    assert(chain.contains(part) <==> chain.to_multiset().count(part) > 0);
}

/// A cell is occupied by the chain exactly if it is occupied by the segments
/// as given.
pub proof fn lemma_chain_of_occupied(parts: Seq<SnakePart>, c: Cell)
    ensures
        occupied(chain_of(parts), c) == occupied(parts, c),
{
    let chain = chain_of(parts);
    if occupied(parts, c) {
        let i = choose|i: int| 0 <= i < parts.len() && (#[trigger] parts[i]).position == c;
        lemma_chain_of_contains(parts, parts[i]);
        assert(parts.contains(parts[i]));
        let j = choose|j: int| 0 <= j < chain.len() && chain[j] == parts[i];
        assert(chain[j].position == c);
    }
    if occupied(chain, c) {
        let j = choose|j: int| 0 <= j < chain.len() && (#[trigger] chain[j]).position == c;
        lemma_chain_of_contains(parts, chain[j]);
        assert(chain.contains(chain[j]));
        let i = choose|i: int| 0 <= i < parts.len() && parts[i] == chain[j];
        assert(parts[i].position == c);
    }
}

/// Puts the segments in chain order: by ascending ordinal, the head first.
pub fn sort_by_ordinal(parts: &mut Vec<SnakePart>)
    ensures
        final(parts)@ == chain_of(old(parts)@),
{
    let mut chain: Vec<SnakePart> = Vec::new();
    let mut i: usize = 0;
    while i < parts.len()
        invariant
            i <= parts.len(),
            parts@ == old(parts)@,
            chain@ == chain_of(parts@.take(i as int)),
            ascending(chain@),
            chain@.len() == i,
        decreases parts.len() - i,
    {
        let part = parts[i];
        let mut k: usize = chain.len();
        while k > 0 && chain[k - 1].ordinal > part.ordinal
            invariant
                k <= chain.len(),
                forall|j: int| k <= j < chain.len() ==> (#[trigger] chain@[j]).ordinal > part.ordinal,
            decreases k,
        {
            k = k - 1;
        }
        proof {
            let taken = parts@.take(i as int + 1);
            assert(taken.drop_last() =~= parts@.take(i as int));
            assert(taken.last() == part);
            lemma_insert_part_at(chain@, part, k as int);
            lemma_insert_part_sorts(chain@, part);
        }
        chain.insert(k, part);
        i = i + 1;
    }
    proof {
        assert(parts@.take(i as int) =~= parts@);
    }
    *parts = chain;
}

/// The cell of the first segment that carries `ordinal`, if any does.
pub fn position_of(parts: &Vec<SnakePart>, ordinal: usize) -> (position: Option<Cell>)
    ensures
        position is None <==> forall|i: int|
            0 <= i < parts@.len() ==> (#[trigger] parts@[i]).ordinal != ordinal,
        position matches Some(cell) ==> exists|i: int|
            0 <= i < parts@.len() && (#[trigger] parts@[i]) == (SnakePart { ordinal, position: cell })
                && forall|j: int| 0 <= j < i ==> (#[trigger] parts@[j]).ordinal != ordinal,
{
    let mut i: usize = 0;
    while i < parts.len()
        invariant
            i <= parts.len(),
            forall|j: int| 0 <= j < i ==> (#[trigger] parts@[j]).ordinal != ordinal,
        decreases parts.len() - i,
    {
        if parts[i].ordinal == ordinal {
            return Some(parts[i].position);
        }
        i = i + 1;
    }
    None
}

/// Whether some segment occupies the cell `c`.
pub fn is_occupied(parts: &Vec<SnakePart>, c: &Cell) -> (taken: bool)
    ensures
        taken == occupied(parts@, *c),
{
    let mut i: usize = 0;
    while i < parts.len()
        invariant
            i <= parts.len(),
            forall|j: int| 0 <= j < i ==> (#[trigger] parts@[j]).position != *c,
        decreases parts.len() - i,
    {
        if parts[i].position == *c {
            return true;
        }
        i = i + 1;
    }
    false
}

/// A copy of the segments in chain order.
pub fn chain_order(parts: &Vec<SnakePart>) -> (chain: Vec<SnakePart>)
    ensures
        chain@ == chain_of(parts@),
{
    let mut chain: Vec<SnakePart> = Vec::new();
    let mut i: usize = 0;
    while i < parts.len()
        invariant
            i <= parts.len(),
            chain@ == parts@.take(i as int),
        decreases parts.len() - i,
    {
        chain.push(parts[i]);
        proof {
            assert(parts@.take(i as int).push(parts@[i as int]) =~= parts@.take(i as int + 1));
        }
        i = i + 1;
    }
    proof {
        assert(parts@.take(i as int) =~= parts@);
    }
    sort_by_ordinal(&mut chain);
    chain
}

} // verus!
