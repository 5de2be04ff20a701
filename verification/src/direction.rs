//! The four directions of movement.

use vstd::prelude::*;

verus! {

/// One of the four ways a square can move.
#[derive(Clone, Copy, Debug, PartialEq, Eq, Structural)]
pub enum Direction {
    Up,
    Down,
    Left,
    Right,
}

impl Direction {
    /// The three directions other than `self`, in the order Up, Down, Left,
    /// Right with `self` left out.
    pub open spec fn others(self) -> Seq<Direction> {
        match self {
            Direction::Up => seq![Direction::Down, Direction::Left, Direction::Right],
            Direction::Down => seq![Direction::Up, Direction::Left, Direction::Right],
            Direction::Left => seq![Direction::Up, Direction::Down, Direction::Right],
            Direction::Right => seq![Direction::Up, Direction::Down, Direction::Left],
        }
    }

    /// The direction that undoes a step in `self`.
    pub open spec fn reversed(self) -> Direction {
        match self {
            Direction::Up => Direction::Down,
            Direction::Down => Direction::Up,
            Direction::Left => Direction::Right,
            Direction::Right => Direction::Left,
        }
    }

    /// Returns the other three directions, in a fixed order.
    pub fn all_except(self) -> (r: [Direction; 3])
        ensures
            r@ == self.others(),
    {
        let r = match self {
            Direction::Up => [Direction::Down, Direction::Left, Direction::Right],
            Direction::Down => [Direction::Up, Direction::Left, Direction::Right],
            Direction::Left => [Direction::Up, Direction::Down, Direction::Right],
            Direction::Right => [Direction::Up, Direction::Down, Direction::Left],
        };
        assert(r@ =~= self.others());
        r
    }

    /// Returns the direction that points the other way.
    pub fn opposite(self) -> (r: Direction)
        ensures
            r == self.reversed(),
    {
        match self {
            Direction::Up => Direction::Down,
            Direction::Down => Direction::Up,
            Direction::Left => Direction::Right,
            Direction::Right => Direction::Left,
        }
    }
}

/// `others` holds exactly three directions, never the one left out, and every
/// other direction exactly once.
pub proof fn lemma_others_covers_the_rest(d: Direction)
    ensures
        d.others().len() == 3,
        !d.others().contains(d),
        forall|e: Direction| e != d ==> #[trigger] d.others().contains(e),
        d.others().no_duplicates(),
{
    let s = d.others();
    assert forall|e: Direction| e != d implies #[trigger] s.contains(e) by {
        assert(s[0] == e || s[1] == e || s[2] == e);
    }
}

/// Reversing a direction twice gives it back, and a direction is never its own
/// reverse.
pub proof fn lemma_reversed_is_an_involution(d: Direction)
    ensures
        d.reversed().reversed() == d,
        d.reversed() != d,
{
}

} // verus!
