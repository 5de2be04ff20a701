//! The trail: every cell the player has visited, with a colour that deepens
//! on each further visit.

use crate::colour::Colour;
use crate::position::Position;
use std::collections::HashMap;
use vstd::prelude::*;

verus! {

/// One visited cell and its colour.
#[derive(Clone, Copy, Debug, PartialEq, Eq, Structural)]
pub struct TrailEntry {
    pub position: Position,
    pub colour: Colour,
}

/// The visited cells, each held once, in the order of their first visit,
/// with a hash index from each cell to the place of its entry.
pub struct TrailMap {
    entries: Vec<TrailEntry>,
    index: HashMap<u128, usize>,
}

/// The number under which the index files a cell: the column in the upper
/// half of the number, the row in the lower half.
spec fn key_of(p: Position) -> u128 {
    (p.x * 0x1_0000_0000_0000_0000 + p.y) as u128
}

/// Two cells filed under the same number are the same cell.
proof fn lemma_key_of_is_injective(p: Position, q: Position)
    requires
        key_of(p) == key_of(q),
    ensures
        p == q,
{
    assert(p.x <= 0xffff_ffff_ffff_ffff && p.y <= 0xffff_ffff_ffff_ffff);
    assert(q.x <= 0xffff_ffff_ffff_ffff && q.y <= 0xffff_ffff_ffff_ffff);
}

/// The index files every entry, and nothing else, under the number of its
/// cell.
spec fn indexes(index: Map<u128, usize>, entries: Seq<TrailEntry>) -> bool {
    &&& forall|i: int|
        0 <= i < entries.len() ==> index.contains_key(#[trigger] key_of(entries[i].position))
            && index[key_of(entries[i].position)] == i
    &&& forall|k: u128| #[trigger]
        index.contains_key(k) ==> index[k] < entries.len() && key_of(
            entries[index[k] as int].position,
        ) == k
}

/// Returns the number under which the index files the cell `p`.
fn key(p: Position) -> (k: u128)
    ensures
        k == key_of(p),
{
    let x: u128 = p.x as u128;
    let y: u128 = p.y as u128;
    x * 0x1_0000_0000_0000_0000 + y
}

/// No cell occurs twice among `entries`.
spec fn distinct_cells(entries: Seq<TrailEntry>) -> bool {
    forall|i: int, j: int|
        0 <= i < entries.len() && 0 <= j < entries.len() && i != j ==> entries[i].position
            != entries[j].position
}

/// Entry number `i` of `entries` is the one for cell `p`.
spec fn holds_at(entries: Seq<TrailEntry>, p: Position, i: int) -> bool {
    0 <= i < entries.len() && entries[i].position == p
}

/// The mapping from cell to colour that `entries` spell out.
spec fn cells_of(entries: Seq<TrailEntry>) -> Map<Position, Colour> {
    Map::new(
        |p: Position| exists|i: int| holds_at(entries, p, i),
        |p: Position| entries[choose|i: int| holds_at(entries, p, i)].colour,
    )
}

/// The trail after one more visit to `position` by a player whose base colour
/// is `base`: a cell seen for the first time takes the base colour, a cell
/// seen before keeps its colour one step deeper, and every other cell stays
/// as it is.
pub open spec fn recorded(trail: Map<Position, Colour>, position: Position, base: Colour) -> Map<
    Position,
    Colour,
> {
    if trail.dom().contains(position) {
        trail.insert(position, trail[position].deepened())
    } else {
        trail.insert(position, base)
    }
}

/// Where no cell occurs twice, each entry's colour is the one the mapping
/// gives for its cell.
proof fn lemma_cells_of_entry(entries: Seq<TrailEntry>, i: int)
    requires
        distinct_cells(entries),
        0 <= i < entries.len(),
    ensures
        cells_of(entries).dom().contains(entries[i].position),
        cells_of(entries)[entries[i].position] == entries[i].colour,
{
    let p = entries[i].position;
    assert(holds_at(entries, p, i));
    let k = choose|k: int| holds_at(entries, p, k);
    assert(k == i);
}

impl View for TrailMap {
    type V = Map<Position, Colour>;

    closed spec fn view(&self) -> Map<Position, Colour> {
        cells_of(self.entries@)
    }
}

impl TrailMap {
    #[verifier::type_invariant]
    spec fn well_formed(&self) -> bool {
        distinct_cells(self.entries@) && indexes(self.index@, self.entries@)
    }

    /// Returns a trail with no cell visited yet.
    pub fn new() -> (t: TrailMap)
        ensures
            t@ == Map::<Position, Colour>::empty(),
    {
        let t = TrailMap { entries: Vec::new(), index: HashMap::new() };
        assert(t@ =~= Map::<Position, Colour>::empty()) by {
            assert forall|p: Position| !cells_of(t.entries@).dom().contains(p) by {
                if cells_of(t.entries@).dom().contains(p) {
                    let i = choose|i: int| holds_at(t.entries@, p, i);
                    assert(holds_at(t.entries@, p, i));
                }
            }
        }
        t
    }

    /// Returns the number of cells visited so far.
    pub fn len(&self) -> (n: usize)
        ensures
            self@.dom().finite(),
            n == self@.dom().len(),
    {
        proof {
            use_type_invariant(self);
            lemma_cells_of_len(self.entries@);
        }
        self.entries.len()
    }

    /// Returns the colour of the cell at `position`, if it has been visited.
    pub fn get(&self, position: Position) -> (found: Option<Colour>)
        ensures
            found == if self@.dom().contains(position) {
                Some(self@[position])
            } else {
                None
            },
    {
        proof {
            use_type_invariant(self);
        }
        match self.index.get(&key(position)) {
            Some(at) => {
                proof {
                    lemma_key_of_is_injective(self.entries@[*at as int].position, position);
                    lemma_cells_of_entry(self.entries@, *at as int);
                }
                Some(self.entries[*at].colour)
            },
            None => {
                proof {
                    lemma_unfiled_is_absent(self.index@, self.entries@, position);
                }
                None
            },
        }
    }

    /// Records one more visit to `position` by a player whose base colour is
    /// `base`. A cell seen for the first time enters the trail with the base
    /// colour; a cell seen before grows one step more opaque, up to full
    /// opacity. No cell ever leaves the trail or fades.
    pub fn record(&mut self, position: Position, base: Colour)
        ensures
            final(self)@ == recorded(old(self)@, position, base),
            forall|p: Position| #[trigger]
                old(self)@.dom().contains(p) ==> final(self)@.dom().contains(p) && final(self)@[p].a
                    >= old(self)@[p].a,
    {
        proof {
            use_type_invariant(&*self);
            lemma_recorded_never_fades(self@, position, base);
        }
        let mut taken = TrailMap::new();
        std::mem::swap(self, &mut taken);
        let TrailMap { mut entries, mut index } = taken;
        let ghost before = entries@;
        let ghost filed = index@;
        let k = key(position);
        let found: Option<usize> = match index.get(&k) {
            Some(at) => Some(*at),
            None => None,
        };
        match found {
            Some(at) => {
                let deeper = entries[at].colour.deepen();
                proof {
                    lemma_key_of_is_injective(before[at as int].position, position);
                    lemma_cells_of_entry(before, at as int);
                    lemma_cells_of_update(before, at as int, deeper);
                }
                entries.set(at, TrailEntry { position, colour: deeper });
                assert(indexes(index@, entries@)) by {
                    assert forall|i: int| 0 <= i < entries@.len() implies entries@[i].position
                        == before[i].position by {}
                }
            },
            None => {
                proof {
                    lemma_unfiled_is_absent(filed, before, position);
                    lemma_cells_of_push(before, TrailEntry { position, colour: base });
                }
                let at = entries.len();
                entries.push(TrailEntry { position, colour: base });
                index.insert(k, at);
                assert(indexes(index@, entries@)) by {
                    assert forall|i: int| 0 <= i < entries@.len() implies index@.contains_key(
                        #[trigger] key_of(entries@[i].position),
                    ) && index@[key_of(entries@[i].position)] == i by {
                        if i < before.len() {
                            assert(filed.contains_key(key_of(before[i].position)));
                        }
                    }
                    assert forall|j: u128| #[trigger] index@.contains_key(j) implies index@[j]
                        < entries@.len() && key_of(entries@[index@[j] as int].position) == j by {
                        if j != k {
                            assert(filed.contains_key(j));
                        }
                    }
                }
            },
        }
        *self = TrailMap { entries, index };
    }

    /// Returns every visited cell with its colour, each cell once. The order
    /// is not part of the contract.
    pub fn iterate(&self) -> (pairs: Vec<(Position, Colour)>)
        ensures
            pairs@.len() == self@.dom().len(),
            forall|i: int|
                0 <= i < pairs@.len() ==> self@.dom().contains(#[trigger] pairs@[i].0) && self@[pairs@[i].0]
                    == pairs@[i].1,
            forall|p: Position|
                self@.dom().contains(p) ==> exists|i: int|
                    0 <= i < pairs@.len() && #[trigger] pairs@[i].0 == p,
            forall|i: int, j: int|
                0 <= i < pairs@.len() && 0 <= j < pairs@.len() && i != j ==> pairs@[i].0
                    != pairs@[j].0,
    {
        proof {
            use_type_invariant(self);
            lemma_cells_of_len(self.entries@);
        }
        let mut pairs: Vec<(Position, Colour)> = Vec::new();
        let mut i: usize = 0;
        while i < self.entries.len()
            invariant
                i <= self.entries.len(),
                pairs@.len() == i,
                forall|j: int|
                    0 <= j < i ==> (#[trigger] pairs@[j]).0 == self.entries@[j].position
                        && pairs@[j].1 == self.entries@[j].colour,
            decreases self.entries.len() - i,
        {
            let e = self.entries[i];
            pairs.push((e.position, e.colour));
            i += 1;
        }
        proof {
            let entries = self.entries@;
            assert forall|k: int| 0 <= k < pairs@.len() implies self@.dom().contains(
                #[trigger] pairs@[k].0,
            ) && self@[pairs@[k].0] == pairs@[k].1 by {
                assert(pairs@[k].0 == entries[k].position);
                lemma_cells_of_entry(entries, k);
            }
            assert forall|p: Position| self@.dom().contains(p) implies exists|k: int|
                0 <= k < pairs@.len() && #[trigger] pairs@[k].0 == p by {
                let k = choose|k: int| holds_at(entries, p, k);
                assert(holds_at(entries, p, k));
                assert(pairs@[k].0 == p);
            }
            assert forall|a: int, b: int|
                0 <= a < pairs@.len() && 0 <= b < pairs@.len() && a != b implies pairs@[a].0
                != pairs@[b].0 by {
                assert(pairs@[a].0 == entries[a].position);
                assert(pairs@[b].0 == entries[b].position);
            }
        }
        pairs
    }
}

/// A cell whose number the index does not hold has no entry.
proof fn lemma_unfiled_is_absent(index: Map<u128, usize>, entries: Seq<TrailEntry>, p: Position)
    requires
        indexes(index, entries),
        !index.contains_key(key_of(p)),
    ensures
        !cells_of(entries).dom().contains(p),
{
    if cells_of(entries).dom().contains(p) {
        let i = choose|i: int| holds_at(entries, p, i);
        assert(index.contains_key(key_of(entries[i].position)));
    }
}

/// Replacing the colour of entry `i` changes the mapping at that entry's cell
/// and nowhere else.
proof fn lemma_cells_of_update(entries: Seq<TrailEntry>, i: int, colour: Colour)
    requires
        distinct_cells(entries),
        0 <= i < entries.len(),
    ensures
        distinct_cells(entries.update(i, TrailEntry { position: entries[i].position, colour })),
        cells_of(entries.update(i, TrailEntry { position: entries[i].position, colour }))
            == cells_of(entries).insert(entries[i].position, colour),
{
    let p = entries[i].position;
    let after = entries.update(i, TrailEntry { position: p, colour });
    assert forall|q: Position| cells_of(after).dom().contains(q) <==> cells_of(entries).insert(
        p,
        colour,
    ).dom().contains(q) by {
        if cells_of(after).dom().contains(q) {
            let k = choose|k: int| holds_at(after, q, k);
            assert(holds_at(entries, q, k));
        }
        if cells_of(entries).dom().contains(q) {
            let k = choose|k: int| holds_at(entries, q, k);
            assert(holds_at(after, q, k));
        }
        assert(holds_at(after, p, i));
    }
    assert forall|q: Position| cells_of(after).dom().contains(q) implies cells_of(after)[q]
        == cells_of(entries).insert(p, colour)[q] by {
        let k = choose|k: int| holds_at(after, q, k);
        lemma_cells_of_entry(after, k);
        if k != i {
            lemma_cells_of_entry(entries, k);
        }
    }
    assert(cells_of(after) =~= cells_of(entries).insert(p, colour));
}

/// Appending an entry for a cell not yet held adds that cell to the mapping
/// and changes nothing else.
proof fn lemma_cells_of_push(entries: Seq<TrailEntry>, entry: TrailEntry)
    requires
        distinct_cells(entries),
        !cells_of(entries).dom().contains(entry.position),
    ensures
        distinct_cells(entries.push(entry)),
        cells_of(entries.push(entry)) == cells_of(entries).insert(entry.position, entry.colour),
{
    let after = entries.push(entry);
    let n = entries.len() as int;
    assert forall|i: int, j: int|
        0 <= i < after.len() && 0 <= j < after.len() && i != j implies after[i].position
        != after[j].position by {
        if i == n {
            assert(holds_at(entries, entry.position, j) ==> cells_of(entries).dom().contains(
                entry.position,
            ));
        }
        if j == n {
            assert(holds_at(entries, entry.position, i) ==> cells_of(entries).dom().contains(
                entry.position,
            ));
        }
    }
    assert forall|q: Position| cells_of(after).dom().contains(q) <==> cells_of(entries).insert(
        entry.position,
        entry.colour,
    ).dom().contains(q) by {
        if cells_of(after).dom().contains(q) {
            let k = choose|k: int| holds_at(after, q, k);
            if k < n {
                assert(holds_at(entries, q, k));
            }
        }
        if cells_of(entries).dom().contains(q) {
            let k = choose|k: int| holds_at(entries, q, k);
            assert(holds_at(after, q, k));
        }
        assert(holds_at(after, entry.position, n));
    }
    assert forall|q: Position| cells_of(after).dom().contains(q) implies cells_of(after)[q]
        == cells_of(entries).insert(entry.position, entry.colour)[q] by {
        let k = choose|k: int| holds_at(after, q, k);
        lemma_cells_of_entry(after, k);
        if k < n {
            lemma_cells_of_entry(entries, k);
        }
    }
    assert(cells_of(after) =~= cells_of(entries).insert(entry.position, entry.colour));
}

/// Where no cell occurs twice, the mapping has as many cells as there are
/// entries.
proof fn lemma_cells_of_len(entries: Seq<TrailEntry>)
    requires
        distinct_cells(entries),
    ensures
        cells_of(entries).dom().finite(),
        cells_of(entries).dom().len() == entries.len(),
    decreases entries.len(),
{
    if entries.len() == 0 {
        assert(cells_of(entries).dom() =~= Set::<Position>::empty()) by {
            assert forall|p: Position| !cells_of(entries).dom().contains(p) by {
                if cells_of(entries).dom().contains(p) {
                    let i = choose|i: int| holds_at(entries, p, i);
                    assert(holds_at(entries, p, i));
                }
            }
        }
    } else {
        let front = entries.drop_last();
        let last = entries.last();
        assert(distinct_cells(front));
        lemma_cells_of_len(front);
        if cells_of(front).dom().contains(last.position) {
            let k = choose|k: int| holds_at(front, last.position, k);
            assert(holds_at(front, last.position, k));
            assert(entries[k].position == entries[entries.len() - 1].position);
        }
        lemma_cells_of_push(front, last);
        assert(front.push(last) =~= entries);
        assert(cells_of(entries).dom() =~= cells_of(front).dom().insert(last.position));
    }
}

/// One more visit never removes a cell from the trail and never lowers the
/// opacity of a cell already in it.
pub proof fn lemma_recorded_never_fades(trail: Map<Position, Colour>, position: Position, base: Colour)
    ensures
        recorded(trail, position, base).dom() == trail.dom().insert(position),
        forall|p: Position| #[trigger]
            trail.dom().contains(p) ==> recorded(trail, position, base).dom().contains(p)
                && recorded(trail, position, base)[p].a >= trail[p].a,
{
}

/// Two visits in a row to one cell: the second never lowers the opacity that
/// the first left, and the opacity never passes `ALPHA_MAX`.
pub proof fn lemma_recorded_twice(trail: Map<Position, Colour>, position: Position, base: Colour)
    ensures
        ({
            let once = recorded(trail, position, base);
            let twice = recorded(once, position, base);
            &&& once.dom().contains(position)
            &&& twice.dom() == once.dom()
            &&& once[position].a <= twice[position].a <= crate::colour::ALPHA_MAX
            &&& twice[position] == once[position].deepened()
        }),
{
    let once = recorded(trail, position, base);
    let twice = recorded(once, position, base);
    assert(twice.dom() =~= once.dom());
}

} // verus!
