//! A cell of the grid, and the single wrapping step that moves between cells.

use crate::constants::{GRID_HEIGHT, GRID_WIDTH};
use crate::direction::Direction;
use crate::random::sample_below;
use vstd::prelude::*;

verus! {

/// A cell, by column `x` and row `y`.
///
/// Columns run from 0 to `GRID_WIDTH` and rows from 0 to `GRID_HEIGHT`, both
/// ends included: the last index of an axis is the far boundary, which shows
/// at the same place as index 0.
#[derive(Debug, Hash, PartialEq, Eq, Clone, Copy, Structural)]
pub struct Position {
    pub x: usize,
    pub y: usize,
}

/// The index one step down an axis of extent `max`: 0 wraps to `max`.
pub open spec fn step_back(v: usize, max: usize) -> usize {
    if v > 0 {
        (v - 1) as usize
    } else {
        max
    }
}

/// The index one step up an axis of extent `max`: anything not below `max`
/// wraps to 0.
pub open spec fn step_forth(v: usize, max: usize) -> usize {
    if v < max {
        (v + 1) as usize
    } else {
        0
    }
}

impl Position {
    /// Both indices lie within the grid's extents.
    pub open spec fn in_grid(self) -> bool {
        self.x <= GRID_WIDTH && self.y <= GRID_HEIGHT
    }

    /// The cell in the middle of the grid.
    pub open spec fn center() -> Position {
        Position { x: (GRID_WIDTH / 2) as usize, y: (GRID_HEIGHT / 2) as usize }
    }

    /// The cell one wrapping step away in direction `d`.
    pub open spec fn moved(self, d: Direction) -> Position {
        match d {
            Direction::Up => Position { x: self.x, y: step_back(self.y, GRID_HEIGHT) },
            Direction::Down => Position { x: self.x, y: step_forth(self.y, GRID_HEIGHT) },
            Direction::Left => Position { x: step_back(self.x, GRID_WIDTH), y: self.y },
            Direction::Right => Position { x: step_forth(self.x, GRID_WIDTH), y: self.y },
        }
    }

    /// The one direction a pursuer at `self` never takes while chasing
    /// `other`. The rules are tried from the top and the first that applies
    /// wins; the two on the column difference cover every case, so the two on
    /// the row difference never apply.
    pub open spec fn forbidden(self, other: Position) -> Direction {
        let dx = self.x - other.x;
        let dy = self.y - other.y;
        if dx > 0 {
            Direction::Right
        } else if dx <= 0 {
            Direction::Left
        } else if dy > 0 {
            Direction::Down
        } else {
            Direction::Up
        }
    }

    /// Where a pursuer at `self` lands when it chases `other` and takes the
    /// `pick`-th of the directions left to it.
    pub open spec fn pursued(self, other: Position, pick: int) -> Position
        recommends
            0 <= pick < 3,
    {
        self.moved(self.forbidden(other).others()[pick])
    }

    /// The two cells show at the same place: their indices agree once the far
    /// boundary of each axis is folded onto index 0.
    pub open spec fn meets(self, other: Position) -> bool {
        self.x % GRID_WIDTH == other.x % GRID_WIDTH && self.y % GRID_HEIGHT == other.y
            % GRID_HEIGHT
    }

    /// The cell lies on the outermost ring of the grid.
    pub open spec fn on_edge(self) -> bool {
        &&& self.x < GRID_WIDTH
        &&& self.y < GRID_HEIGHT
        &&& (self.x == 0 || self.y == 0 || self.x == GRID_WIDTH - 1 || self.y == GRID_HEIGHT - 1)
    }

    /// The cell at offset `along` on edge number `edge`: 0 is the left
    /// column, 1 the top row, 2 the right column, 3 the bottom row.
    pub open spec fn edge_cell(edge: usize, along: usize) -> Position {
        if edge == 0 {
            Position { x: 0, y: along }
        } else if edge == 1 {
            Position { x: along, y: 0 }
        } else if edge == 2 {
            Position { x: (GRID_WIDTH - 1) as usize, y: along }
        } else {
            Position { x: along, y: (GRID_HEIGHT - 1) as usize }
        }
    }

    /// The length of edge number `edge`, in cells.
    pub open spec fn edge_length(edge: usize) -> usize {
        if edge == 0 || edge == 2 {
            GRID_HEIGHT
        } else {
            GRID_WIDTH
        }
    }

    /// Returns the cell in the middle of the grid.
    pub fn new() -> (p: Position)
        ensures
            p == Position::center(),
            p.in_grid(),
    {
        Position { x: GRID_WIDTH / 2, y: GRID_HEIGHT / 2 }
    }

    /// Moves one cell in `direction`, which is `CELL_LENGTH` pixels on screen.
    /// Stepping back from index 0 lands on the far boundary of that axis, and
    /// stepping forth from the far boundary (or from beyond it) lands on
    /// index 0.
    pub fn shunt(&mut self, direction: Direction)
        ensures
            *final(self) == old(self).moved(direction),
            old(self).in_grid() ==> final(self).in_grid(),
    {
        match direction {
            Direction::Up => {
                if self.y > 0 {
                    self.y -= 1;
                } else {
                    self.y = GRID_HEIGHT;
                }
            },
            Direction::Down => {
                if self.y < GRID_HEIGHT {
                    self.y += 1;
                } else {
                    self.y = 0;
                }
            },
            Direction::Left => {
                if self.x > 0 {
                    self.x -= 1;
                } else {
                    self.x = GRID_WIDTH;
                }
            },
            Direction::Right => {
                if self.x < GRID_WIDTH {
                    self.x += 1;
                } else {
                    self.x = 0;
                }
            },
        }
    }

    /// Returns the direction that a pursuer at `self` must not take while
    /// chasing `other`. Only the columns decide: the two rules on the rows
    /// stand behind two rules that between them always apply.
    pub fn forbidden_direction(&self, other: &Position) -> (d: Direction)
        ensures
            d == self.forbidden(*other),
    {
        if self.x > other.x {
            Direction::Right
        } else if self.x <= other.x {
            Direction::Left
        } else if self.y > other.y {
            Direction::Down
        } else {
            Direction::Up
        }
    }

    /// Returns the `pick`-th of the three directions open to a pursuer at
    /// `self` chasing `other`.
    pub fn direction_towards(&self, other: &Position, pick: usize) -> (d: Direction)
        requires
            pick < 3,
        ensures
            d == self.forbidden(*other).others()[pick as int],
            d != self.forbidden(*other),
    {
        let possible = self.forbidden_direction(other).all_except();
        possible[pick]
    }

    /// Picks, by chance, one of the three directions open to a pursuer at
    /// `self` chasing `other`.
    pub fn random_direction_towards(&self, other: &Position) -> (d: Direction)
        ensures
            self.forbidden(*other).others().contains(d),
            d != self.forbidden(*other),
    {
        let pick = sample_below(3);
        self.direction_towards(other, pick)
    }

    /// Moves one cell in a direction picked by chance among the three open to
    /// a pursuer chasing `other`.
    pub fn shunt_towards(&mut self, other: &Position)
        ensures
            exists|pick: int| 0 <= pick < 3 && *final(self) == #[trigger] old(self).pursued(*other, pick),
            old(self).in_grid() ==> final(self).in_grid() && *final(self) != old(self).moved(
                old(self).forbidden(*other),
            ),
    {
        let direction = self.random_direction_towards(other);
        proof {
            let s = self.forbidden(*other).others();
            let k = choose|k: int| 0 <= k < s.len() && s[k] == direction;
            assert(self.moved(direction) == self.pursued(*other, k));
            if self.in_grid() {
                lemma_moves_differ(*self, direction, self.forbidden(*other));
            }
        }
        self.shunt(direction);
    }

    /// Returns the cell at offset `along` on edge number `edge`.
    pub fn edge_position(edge: usize, along: usize) -> (p: Position)
        requires
            edge < 4,
        ensures
            p == Position::edge_cell(edge, along),
            along < Position::edge_length(edge) ==> p.on_edge(),
    {
        if edge == 0 {
            Position { x: 0, y: along }
        } else if edge == 1 {
            Position { x: along, y: 0 }
        } else if edge == 2 {
            Position { x: GRID_WIDTH - 1, y: along }
        } else {
            Position { x: along, y: GRID_HEIGHT - 1 }
        }
    }

    /// Picks one of the four edges by chance, then a cell along it by chance.
    pub fn random_edge_position() -> (p: Position)
        ensures
            p.on_edge(),
            exists|edge: usize, along: usize|
                edge < 4 && along < Position::edge_length(edge) && p == #[trigger] Position::edge_cell(
                    edge,
                    along,
                ),
    {
        let edge = sample_below(4);
        let along = if edge == 0 || edge == 2 {
            sample_below(GRID_HEIGHT)
        } else {
            sample_below(GRID_WIDTH)
        };
        Position::edge_position(edge, along)
    }

    /// Tells whether the two cells show at the same place.
    pub fn collides_with(&self, other: &Position) -> (hit: bool)
        ensures
            hit == self.meets(*other),
    {
        self.x % GRID_WIDTH == other.x % GRID_WIDTH && self.y % GRID_HEIGHT == other.y
            % GRID_HEIGHT
    }
}

/// Within the grid, steps in two different directions from one cell end on
/// two different cells.
pub proof fn lemma_moves_differ(c: Position, d: Direction, e: Direction)
    requires
        c.in_grid(),
        d != e,
    ensures
        c.moved(d) != c.moved(e),
{
}

/// A step followed by a step the opposite way ends where it began, for every
/// cell within the grid. Beyond the grid it need not: from row
/// `GRID_HEIGHT + 1` a step down lands on row 0, and the step up from there
/// lands on row `GRID_HEIGHT`.
pub proof fn lemma_step_and_back(c: Position, d: Direction)
    requires
        c.in_grid(),
    ensures
        c.moved(d).moved(d.reversed()) == c,
{
}

/// At index 0 of an axis a step back lands on the far boundary, and at the
/// far boundary a step forth lands on index 0; the other axis is untouched.
pub proof fn lemma_wrap_around(c: Position)
    ensures
        c.y == 0 ==> c.moved(Direction::Up) == (Position { x: c.x, y: GRID_HEIGHT }),
        c.y == GRID_HEIGHT ==> c.moved(Direction::Down) == (Position { x: c.x, y: 0 }),
        c.x == 0 ==> c.moved(Direction::Left) == (Position { x: GRID_WIDTH, y: c.y }),
        c.x == GRID_WIDTH ==> c.moved(Direction::Right) == (Position { x: 0, y: c.y }),
{
}

/// The forbidden direction depends on the columns alone: it is Right when the
/// pursuer stands to the right of its target and Left otherwise, whatever the
/// rows.
pub proof fn lemma_forbidden_ignores_rows(a: Position, p: Position)
    ensures
        a.forbidden(p) == if a.x > p.x {
            Direction::Right
        } else {
            Direction::Left
        },
{
}

/// A pursuer within the grid never lands where a step in the forbidden
/// direction would have taken it.
pub proof fn lemma_pursuit_avoids_forbidden(a: Position, p: Position, pick: int)
    requires
        a.in_grid(),
        0 <= pick < 3,
    ensures
        a.pursued(p, pick) != a.moved(a.forbidden(p)),
        a.pursued(p, pick).in_grid(),
{
    let f = a.forbidden(p);
    crate::direction::lemma_others_covers_the_rest(f);
    assert(f.others().contains(f.others()[pick]));
    lemma_moves_differ(a, f.others()[pick], f);
}

/// Two cells meet exactly when they are equal or differ only by carrying the
/// far boundary of an axis in place of index 0.
pub proof fn lemma_meets_folds_boundary(a: Position, b: Position)
    requires
        a.in_grid(),
        b.in_grid(),
    ensures
        a.meets(b) <==> {
            &&& (a.x == b.x || (a.x == 0 && b.x == GRID_WIDTH) || (a.x == GRID_WIDTH && b.x == 0))
            &&& (a.y == b.y || (a.y == 0 && b.y == GRID_HEIGHT) || (a.y == GRID_HEIGHT && b.y
                == 0))
        },
{
}

} // verus!
