//! The game itself: the player, its pursuers, and the update that advances
//! them by one tick.

use crate::colour::Colour;
use crate::direction::Direction;
use crate::position::{lemma_pursuit_avoids_forbidden, Position};
use crate::random::sample_below;
use crate::trail::{lemma_recorded_never_fades, recorded, TrailMap};
use vstd::prelude::*;

verus! {

/// How often a pursuer joins the game: once every this many ticks.
pub const SPAWN_INTERVAL: u64 = 100;

/// The last tick of the slowest pace.
pub const MEGA_SLOW_UNTIL: u64 = 50;

/// The last tick of the slow pace.
pub const SLOW_UNTIL: u64 = 1500;

/// The last tick of the fast pace.
pub const FAST_UNTIL: u64 = 3000;

/// A square on the grid: where it stands and how it is drawn.
#[derive(Debug, Clone, Copy, PartialEq, Eq, Structural)]
pub struct Entity {
    pub position: Position,
    pub colour: Colour,
}

/// The square that the keyboard steers.
#[derive(Debug, Clone, Copy, PartialEq, Eq, Structural)]
pub struct Player(pub Entity);

/// A square that chases the player.
#[derive(Debug, Clone, Copy, PartialEq, Eq, Structural)]
pub struct Baddie(pub Entity);

/// The player's pace.
#[derive(Debug, Clone, Copy, PartialEq, Eq, Structural)]
pub enum Speed {
    MegaSlow,
    Slow,
    Fast,
    MegaFast,
}

/// Why a game ended.
#[derive(Debug, Clone, Copy, PartialEq, Eq, Structural)]
pub enum Ending {
    /// A pursuer reached the player.
    Collision,
    /// The player asked to stop.
    Quit,
}

/// Whether a game is still going.
#[derive(Debug, Clone, Copy, PartialEq, Eq, Structural)]
pub enum State {
    Running,
    Terminated(Ending),
}

/// The keys that the game tells apart.
#[derive(Debug, Clone, Copy, PartialEq, Eq, Structural)]
pub enum Key {
    Q,
    W,
    A,
    S,
    D,
    Up,
    Down,
    Left,
    Right,
    Other,
}

/// The whole state of one game.
pub struct MyGame {
    /// How many updates have run.
    pub ticks: u64,
    /// Whether the player has asked to stop.
    pub quit: bool,
    /// The direction last commanded.
    pub direction: Direction,
    pub player: Player,
    /// The pursuers, oldest first.
    pub baddies: Vec<Baddie>,
    /// The trail that the player has left.
    pub background: TrailMap,
    pub state: State,
}

/// The colour of the player and the base colour of its trail: a faint cyan.
pub open spec fn player_colour() -> Colour {
    Colour { r: 0, g: 255, b: 255, a: 51 }
}

/// The colour of every pursuer: a faint red.
pub open spec fn baddie_colour() -> Colour {
    Colour { r: 51, g: 0, b: 0, a: 51 }
}

/// The colour in which the player's own square is drawn: opaque black.
pub open spec fn player_ink() -> Colour {
    Colour { r: 0, g: 0, b: 0, a: 255 }
}

/// Every pursuer among `baddies` stands within the grid.
pub open spec fn all_in_grid(baddies: Seq<Baddie>) -> bool {
    forall|i: int| 0 <= i < baddies.len() ==> (#[trigger] baddies[i]).0.position.in_grid()
}

/// The pace at tick `t`. A tick on a threshold still belongs to the slower
/// pace.
pub open spec fn speed_at(t: u64) -> Speed {
    if t <= MEGA_SLOW_UNTIL {
        Speed::MegaSlow
    } else if t <= SLOW_UNTIL {
        Speed::Slow
    } else if t <= FAST_UNTIL {
        Speed::Fast
    } else {
        Speed::MegaFast
    }
}

/// Whether the player moves at tick `t`: the tick is a multiple of the
/// interval of its pace.
pub open spec fn moves_at(t: u64) -> bool {
    t % speed_at(t).every() == 0
}

/// Whether a pursuer joins at tick `t`.
pub open spec fn spawns_at(t: u64) -> bool {
    t % SPAWN_INTERVAL == 0
}

/// `after` is `before` one pursuit step closer to `target`: the same colour,
/// and a position one step away in one of the three directions that the
/// pursuit leaves open.
pub open spec fn chased(before: Baddie, after: Baddie, target: Position) -> bool {
    &&& after.0.colour == before.0.colour
    &&& exists|pick: int| 0 <= pick < 3 && after.0.position == #[trigger] before.0.position.pursued(target, pick)
}

/// `picks` holds one choice among three for each of `n` pursuers.
pub open spec fn valid_picks(picks: Seq<usize>, n: nat) -> bool {
    &&& picks.len() == n
    &&& forall|i: int| 0 <= i < picks.len() ==> #[trigger] picks[i] < 3
}

/// The pursuers after each has taken one step in its chase of `target`, the
/// `i`-th of them in the direction that `picks[i]` selects among the three
/// that the pursuit leaves open to it.
pub open spec fn stepped(baddies: Seq<Baddie>, picks: Seq<usize>, target: Position) -> Seq<Baddie>
    recommends
        valid_picks(picks, baddies.len()),
{
    Seq::new(
        baddies.len(),
        |i: int|
            Baddie(
                Entity {
                    position: baddies[i].0.position.pursued(target, picks[i] as int),
                    colour: baddies[i].0.colour,
                },
            ),
    )
}

/// The pursuers at the end of tick `t`: where one is due and a cell is
/// offered for it, a new pursuer stands on that cell, behind the others.
pub open spec fn joined(baddies: Seq<Baddie>, t: u64, newcomer: Option<Position>) -> Seq<Baddie> {
    if spawns_at(t) && newcomer.is_some() {
        baddies.push(Baddie(Entity { position: newcomer.unwrap(), colour: baddie_colour() }))
    } else {
        baddies
    }
}

/// Some pursuer among `baddies` shows at the same place as `target`.
pub open spec fn any_meets(baddies: Seq<Baddie>, target: Position) -> bool {
    exists|i: int| 0 <= i < baddies.len() && (#[trigger] baddies[i]).0.position.meets(target)
}

/// The state after the checks at the end of an update. A request to stop
/// wins over a collision seen in the same tick, and a game that has ended
/// stays ended.
pub open spec fn settled(state: State, quit: bool, hit: bool) -> State {
    if quit {
        State::Terminated(Ending::Quit)
    } else if hit {
        State::Terminated(Ending::Collision)
    } else {
        state
    }
}

impl Speed {
    /// The interval of the pace: the player moves on every tick that is a
    /// multiple of it.
    pub open spec fn every(self) -> u64 {
        match self {
            Speed::MegaSlow => 8,
            Speed::Slow => 4,
            Speed::Fast => 2,
            Speed::MegaFast => 1,
        }
    }

    /// Returns the interval of the pace, in ticks.
    pub fn interval(self) -> (n: u64)
        ensures
            n == self.every(),
            n > 0,
    {
        match self {
            Speed::MegaSlow => 8,
            Speed::Slow => 4,
            Speed::Fast => 2,
            Speed::MegaFast => 1,
        }
    }

    /// Returns the pace at tick `ticks`.
    pub fn at(ticks: u64) -> (s: Speed)
        ensures
            s == speed_at(ticks),
    {
        if ticks <= MEGA_SLOW_UNTIL {
            Speed::MegaSlow
        } else if ticks <= SLOW_UNTIL {
            Speed::Slow
        } else if ticks <= FAST_UNTIL {
            Speed::Fast
        } else {
            Speed::MegaFast
        }
    }
}

impl Key {
    /// The direction that the key commands, if it commands one.
    pub open spec fn steers(self) -> Option<Direction> {
        match self {
            Key::W | Key::Up => Some(Direction::Up),
            Key::S | Key::Down => Some(Direction::Down),
            Key::A | Key::Left => Some(Direction::Left),
            Key::D | Key::Right => Some(Direction::Right),
            Key::Q | Key::Other => None,
        }
    }
}

impl Player {
    /// Returns a player in the middle of the grid.
    pub fn new() -> (p: Player)
        ensures
            p.0.position == Position::center(),
            p.0.colour == player_colour(),
    {
        Player(Entity { position: Position::new(), colour: Colour { r: 0, g: 255, b: 255, a: 51 } })
    }
}

impl Baddie {
    /// Returns a pursuer standing at `position`.
    pub fn at(position: Position) -> (b: Baddie)
        ensures
            b.0.position == position,
            b.0.colour == baddie_colour(),
    {
        Baddie(Entity { position, colour: Colour { r: 51, g: 0, b: 0, a: 51 } })
    }

    /// Returns a pursuer on a cell of the grid's edge picked by chance.
    pub fn new() -> (b: Baddie)
        ensures
            b.0.position.on_edge(),
            b.0.colour == baddie_colour(),
    {
        Baddie::at(Position::random_edge_position())
    }
}

impl MyGame {
    /// Returns a game at tick 0: running, the player in the middle of the
    /// grid and heading right, no pursuer, no trail.
    pub fn new() -> (game: MyGame)
        ensures
            game.ticks == 0,
            !game.quit,
            game.direction == Direction::Right,
            game.player.0.position == Position::center(),
            game.player.0.colour == player_colour(),
            game.baddies@.len() == 0,
            game.background@ == Map::<Position, Colour>::empty(),
            game.state == State::Running,
    {
        MyGame {
            ticks: 0,
            quit: false,
            direction: Direction::Right,
            player: Player::new(),
            baddies: Vec::new(),
            background: TrailMap::new(),
            state: State::Running,
        }
    }

    /// Takes `direction` as the last command, in place of any earlier one.
    pub fn set_direction(&mut self, direction: Direction)
        ensures
            *final(self) == (MyGame { direction, ..*old(self) }),
    {
        self.direction = direction;
    }

    /// Notes that the player has asked to stop; the next update ends the
    /// game.
    pub fn request_quit(&mut self)
        ensures
            *final(self) == (MyGame { quit: true, ..*old(self) }),
    {
        self.quit = true;
    }

    /// Handles one key press: Q asks to stop, the arrow keys and W, A, S, D
    /// command a direction, and any other key changes nothing.
    pub fn key_down_event(&mut self, key: Key)
        ensures
            *final(self) == (MyGame {
                quit: old(self).quit || key == Key::Q,
                direction: match key.steers() {
                    Some(d) => d,
                    None => old(self).direction,
                },
                ..*old(self)
            }),
    {
        match key {
            Key::Q => self.request_quit(),
            Key::W | Key::Up => self.set_direction(Direction::Up),
            Key::S | Key::Down => self.set_direction(Direction::Down),
            Key::A | Key::Left => self.set_direction(Direction::Left),
            Key::D | Key::Right => self.set_direction(Direction::Right),
            Key::Other => {},
        }
    }

    /// Tells whether the player moves at the current tick when its pace is
    /// `speed`.
    pub fn should_move(&self, speed: Speed) -> (go: bool)
        ensures
            go == (self.ticks % speed.every() == 0),
    {
        self.ticks % speed.interval() == 0
    }

    /// Moves the player one cell in `direction` and records the visit to the
    /// cell it lands on.
    pub fn move_square(&mut self, direction: Direction)
        ensures
            final(self).player.0.position == old(self).player.0.position.moved(direction),
            final(self).player.0.colour == old(self).player.0.colour,
            final(self).background@ == recorded(
                old(self).background@,
                old(self).player.0.position.moved(direction),
                old(self).player.0.colour,
            ),
            final(self).ticks == old(self).ticks,
            final(self).quit == old(self).quit,
            final(self).direction == old(self).direction,
            final(self).baddies == old(self).baddies,
            final(self).state == old(self).state,
    {
        self.player.0.position.shunt(direction);
        self.background.record(self.player.0.position, self.player.0.colour);
    }

    /// Moves every pursuer one step in its chase of the player, the `i`-th
    /// of them in the direction that `picks[i]` selects among the three that
    /// the pursuit leaves open to it.
    pub fn chase_with(&mut self, picks: &Vec<usize>)
        requires
            valid_picks(picks@, old(self).baddies@.len()),
        ensures
            final(self).baddies@ == stepped(
                old(self).baddies@,
                picks@,
                old(self).player.0.position,
            ),
            final(self).player == old(self).player,
            final(self).background == old(self).background,
            final(self).ticks == old(self).ticks,
            final(self).quit == old(self).quit,
            final(self).direction == old(self).direction,
            final(self).state == old(self).state,
    {
        let ghost before = self.baddies@;
        let target = self.player.0.position;
        let n = self.baddies.len();
        let mut i: usize = 0;
        while i < n
            invariant
                i <= n,
                self.baddies@.len() == n,
                before.len() == n,
                valid_picks(picks@, n as nat),
                forall|j: int|
                    0 <= j < i ==> #[trigger] self.baddies@[j] == stepped(before, picks@, target)[j],
                forall|j: int| i <= j < n ==> #[trigger] self.baddies@[j] == before[j],
                self.player == old(self).player,
                self.background == old(self).background,
                self.ticks == old(self).ticks,
                self.quit == old(self).quit,
                self.direction == old(self).direction,
                self.state == old(self).state,
            decreases n - i,
        {
            let mut baddie = self.baddies[i];
            let direction = baddie.0.position.direction_towards(&target, picks[i]);
            baddie.0.position.shunt(direction);
            self.baddies.set(i, baddie);
            i += 1;
        }
        assert(self.baddies@ =~= stepped(before, picks@, target));
    }

    /// Tells whether some pursuer shows at the same place as the player.
    pub fn caught(&self) -> (hit: bool)
        ensures
            hit == any_meets(self.baddies@, self.player.0.position),
    {
        let target = self.player.0.position;
        let mut i: usize = 0;
        while i < self.baddies.len()
            invariant
                i <= self.baddies.len(),
                target == self.player.0.position,
                forall|j: int| 0 <= j < i ==> !(#[trigger] self.baddies@[j]).0.position.meets(target),
            decreases self.baddies.len() - i,
        {
            if self.baddies[i].0.position.collides_with(&target) {
                assert(self.baddies@[i as int].0.position.meets(target));
                return true;
            }
            i += 1;
        }
        false
    }

    /// Returns what to draw, in drawing order: the player's square in
    /// `player_ink`, then each pursuer in its colour, oldest first, then every
    /// cell of the trail once, in no particular order.
    pub fn scene(&self) -> (cells: Vec<(Position, Colour)>)
        ensures
            cells@.len() == 1 + self.baddies@.len() + self.background@.dom().len(),
            cells@[0] == (self.player.0.position, player_ink()),
            forall|i: int|
                0 <= i < self.baddies@.len() ==> #[trigger] cells@[1 + i] == (
                    self.baddies@[i].0.position,
                    self.baddies@[i].0.colour,
                ),
            forall|k: int|
                1 + self.baddies@.len() <= k < cells@.len() ==> self.background@.dom().contains(
                    (#[trigger] cells@[k]).0,
                ) && self.background@[cells@[k].0] == cells@[k].1,
            forall|p: Position|
                self.background@.dom().contains(p) ==> exists|k: int|
                    1 + self.baddies@.len() <= k < cells@.len() && (#[trigger] cells@[k]).0 == p,
    {
        let mut cells: Vec<(Position, Colour)> = Vec::new();
        cells.push((self.player.0.position, Colour { r: 0, g: 0, b: 0, a: 255 }));
        let n = self.baddies.len();
        let mut i: usize = 0;
        while i < n
            invariant
                i <= n,
                n == self.baddies@.len(),
                cells@.len() == 1 + i,
                cells@[0] == (self.player.0.position, player_ink()),
                forall|j: int|
                    0 <= j < i ==> #[trigger] cells@[1 + j] == (
                        self.baddies@[j].0.position,
                        self.baddies@[j].0.colour,
                    ),
            decreases n - i,
        {
            let entity = self.baddies[i].0;
            cells.push((entity.position, entity.colour));
            i += 1;
        }
        let trail = self.background.iterate();
        let ghost head = cells@;
        let m = trail.len();
        let mut k: usize = 0;
        while k < m
            invariant
                k <= m,
                m == trail@.len(),
                head.len() == 1 + n,
                cells@.len() == head.len() + k,
                forall|j: int| 0 <= j < head.len() ==> #[trigger] cells@[j] == head[j],
                forall|j: int| 0 <= j < k ==> #[trigger] cells@[head.len() + j] == trail@[j],
            decreases m - k,
        {
            cells.push(trail[k]);
            k += 1;
        }
        proof {
            let base = head.len() as int;
            assert forall|i: int| 0 <= i < self.baddies@.len() implies #[trigger] cells@[1 + i] == (
                self.baddies@[i].0.position,
                self.baddies@[i].0.colour,
            ) by {
                assert(cells@[1 + i] == head[1 + i]);
            }
            assert forall|j: int| base <= j < cells@.len() implies self.background@.dom().contains(
                (#[trigger] cells@[j]).0,
            ) && self.background@[cells@[j].0] == cells@[j].1 by {
                assert(cells@[base + (j - base)] == trail@[j - base]);
            }
            assert forall|p: Position| self.background@.dom().contains(p) implies exists|j: int|
                base <= j < cells@.len() && (#[trigger] cells@[j]).0 == p by {
                let t = choose|t: int| 0 <= t < trail@.len() && trail@[t].0 == p;
                assert(cells@[base + t] == trail@[t]);
            }
        }
        cells
    }

    /// Ends the game if the player has asked to stop or a pursuer has reached
    /// it; a request to stop wins where both hold.
    pub fn settle(&mut self)
        ensures
            final(self).state == settled(
                old(self).state,
                old(self).quit,
                any_meets(old(self).baddies@, old(self).player.0.position),
            ),
            *final(self) == (MyGame { state: final(self).state, ..*old(self) }),
    {
        let hit = self.caught();
        if self.quit {
            self.state = State::Terminated(Ending::Quit);
        } else if hit {
            self.state = State::Terminated(Ending::Collision);
        }
    }

    /// Advances the game by one tick, with every choice that the tick leaves
    /// open made by the caller. With `t` the number of the tick that begins,
    /// counted from 1:
    ///
    /// - the player moves one cell in the commanded direction, and the visit
    ///   is recorded, if `t` is a multiple of the interval of its pace;
    /// - every pursuer already in the game moves one step in its chase of the
    ///   player, towards where the player now stands, the `i`-th of them as
    ///   `picks[i]` selects;
    /// - if `t` is a multiple of `SPAWN_INTERVAL` and `newcomer` offers a
    ///   cell, one new pursuer joins on that cell and stays put for this tick;
    /// - the game ends if the player has asked to stop, or else if a pursuer,
    ///   old or new, shows at the same place as the player.
    pub fn advance(&mut self, picks: &Vec<usize>, newcomer: Option<Position>)
        requires
            old(self).ticks < u64::MAX,
            valid_picks(picks@, old(self).baddies@.len()),
        ensures
            final(self).ticks == old(self).ticks + 1,
            final(self).quit == old(self).quit,
            final(self).direction == old(self).direction,
            final(self).player.0.colour == old(self).player.0.colour,
            final(self).player.0.position == if moves_at(final(self).ticks) {
                old(self).player.0.position.moved(old(self).direction)
            } else {
                old(self).player.0.position
            },
            final(self).background@ == if moves_at(final(self).ticks) {
                recorded(
                    old(self).background@,
                    final(self).player.0.position,
                    old(self).player.0.colour,
                )
            } else {
                old(self).background@
            },
            final(self).baddies@ == joined(
                stepped(old(self).baddies@, picks@, final(self).player.0.position),
                final(self).ticks,
                newcomer,
            ),
            final(self).state == settled(
                old(self).state,
                old(self).quit,
                any_meets(final(self).baddies@, final(self).player.0.position),
            ),
    {
        self.ticks += 1;
        let speed = Speed::at(self.ticks);
        if self.should_move(speed) {
            self.move_square(self.direction);
        }
        self.chase_with(picks);
        if self.ticks % SPAWN_INTERVAL == 0 {
            match newcomer {
                Some(position) => self.baddies.push(Baddie::at(position)),
                None => {},
            }
        }
        self.settle();
    }

    /// Advances the game by one tick as `advance` does, with the choices made
    /// by chance: each pursuer takes one of the three directions open to it,
    /// and a pursuer that is due joins on a cell of the grid's edge.
    pub fn update(&mut self)
        requires
            old(self).ticks < u64::MAX,
        ensures
            final(self).ticks == old(self).ticks + 1,
            final(self).quit == old(self).quit,
            final(self).direction == old(self).direction,
            final(self).player.0.colour == old(self).player.0.colour,
            final(self).player.0.position == if moves_at(final(self).ticks) {
                old(self).player.0.position.moved(old(self).direction)
            } else {
                old(self).player.0.position
            },
            final(self).background@ == if moves_at(final(self).ticks) {
                recorded(
                    old(self).background@,
                    final(self).player.0.position,
                    old(self).player.0.colour,
                )
            } else {
                old(self).background@
            },
            final(self).baddies@.len() == old(self).baddies@.len() + if spawns_at(
                final(self).ticks,
            ) {
                1int
            } else {
                0int
            },
            forall|i: int|
                0 <= i < old(self).baddies@.len() ==> chased(
                    old(self).baddies@[i],
                    #[trigger] final(self).baddies@[i],
                    final(self).player.0.position,
                ),
            spawns_at(final(self).ticks) ==> final(self).baddies@.last().0.position.on_edge()
                && final(self).baddies@.last().0.colour == baddie_colour(),
            final(self).state == settled(
                old(self).state,
                old(self).quit,
                any_meets(final(self).baddies@, final(self).player.0.position),
            ),
            old(self).player.0.position.in_grid() ==> final(self).player.0.position.in_grid(),
            all_in_grid(old(self).baddies@) ==> all_in_grid(final(self).baddies@),
            forall|p: Position| #[trigger]
                old(self).background@.dom().contains(p) ==> final(self).background@.dom().contains(
                    p,
                ) && final(self).background@[p].a >= old(self).background@[p].a,
    {
        let picks = draw_picks(self.baddies.len());
        let newcomer = if (self.ticks + 1) % SPAWN_INTERVAL == 0 {
            Some(Position::random_edge_position())
        } else {
            None
        };
        let ghost before = self.baddies@;
        proof {
            lemma_recorded_never_fades(
                self.background@,
                self.player.0.position.moved(self.direction),
                self.player.0.colour,
            );
        }
        self.advance(&picks, newcomer);
        proof {
            let target = self.player.0.position;
            let moved = stepped(before, picks@, target);
            assert forall|i: int| 0 <= i < before.len() implies chased(
                before[i],
                #[trigger] self.baddies@[i],
                target,
            ) by {
                assert(self.baddies@[i] == moved[i]);
                assert(moved[i].0.position == before[i].0.position.pursued(target, picks@[i] as int));
            }
            if all_in_grid(before) {
                lemma_stepped_in_grid(before, picks@, target);
            }
        }
    }
}

/// Draws one choice among three for each of `n` pursuers.
pub fn draw_picks(n: usize) -> (picks: Vec<usize>)
    ensures
        valid_picks(picks@, n as nat),
{
    let mut picks: Vec<usize> = Vec::new();
    let mut i: usize = 0;
    while i < n
        invariant
            i <= n,
            valid_picks(picks@, i as nat),
        decreases n - i,
    {
        picks.push(sample_below(3));
        i += 1;
    }
    picks
}

/// Pursuers within the grid are still within it after a step of the chase,
/// and none of them has stepped in the direction forbidden to it.
pub proof fn lemma_stepped_in_grid(baddies: Seq<Baddie>, picks: Seq<usize>, target: Position)
    requires
        all_in_grid(baddies),
        valid_picks(picks, baddies.len()),
    ensures
        all_in_grid(stepped(baddies, picks, target)),
        forall|i: int|
            0 <= i < baddies.len() ==> (#[trigger] stepped(baddies, picks, target)[i]).0.position
                != baddies[i].0.position.moved(baddies[i].0.position.forbidden(target)),
{
    assert forall|i: int| 0 <= i < baddies.len() implies (#[trigger] stepped(
        baddies,
        picks,
        target,
    )[i]).0.position.in_grid() && stepped(baddies, picks, target)[i].0.position
        != baddies[i].0.position.moved(baddies[i].0.position.forbidden(target)) by {
        assert(baddies[i].0.position.in_grid());
        assert(picks[i] < 3);
        lemma_pursuit_avoids_forbidden(baddies[i].0.position, target, picks[i] as int);
    }
}

/// A game that has ended stays ended, whatever a later update finds.
pub proof fn lemma_settled_stays_ended(state: State, quit: bool, hit: bool)
    requires
        state != State::Running,
    ensures
        settled(state, quit, hit) != State::Running,
{
}

/// A game keeps running through an update exactly when it ran before, the
/// player has not asked to stop, and no pursuer has reached it.
pub proof fn lemma_settled_running(state: State, quit: bool, hit: bool)
    ensures
        settled(state, quit, hit) == State::Running <==> state == State::Running && !quit && !hit,
{
}

/// The player's pace changes just after ticks 50, 1500 and 3000, and the
/// player moves on every 8th, 4th, 2nd and then every tick.
pub proof fn lemma_pace_thresholds(t: u64)
    ensures
        t <= 50 ==> (moves_at(t) <==> t % 8 == 0),
        50 < t <= 1500 ==> (moves_at(t) <==> t % 4 == 0),
        1500 < t <= 3000 ==> (moves_at(t) <==> t % 2 == 0),
        3000 < t ==> moves_at(t),
{
}

} // verus!
