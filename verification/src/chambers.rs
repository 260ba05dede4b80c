//! Chamber segmentation.
//!
//! A chamber is a maximal set of empty tiles connected through their four
//! cardinal neighbors. `Room::find_chambers` partitions the empty tiles into
//! chambers with a flood fill driven by an explicit worklist, so its depth
//! does not grow with the size of a chamber.

use vstd::prelude::*;
use vstd::seq_lib::group_seq_properties;

use crate::room::Location;
use crate::room::Room;
use crate::room::MAX_DIM;
use crate::tile::TileType;

verus! {

/// One chamber: the locations of its tiles, in the order the fill collected
/// them.
#[derive(Clone, Debug, Default)]
pub struct Chamber {
    pub tiles: Vec<Location>,
}

impl Chamber {
    /// Appends one location to the chamber.
    pub fn add(&mut self, location: Location)
        ensures
            final(self).tiles@ == old(self).tiles@.push(location),
    {
        self.tiles.push(location);
    }
}

/// Whether two locations are cardinal neighbors: they differ by one step
/// along exactly one axis.
pub open spec fn adjacent(a: Location, b: Location) -> bool {
    (a.x == b.x && (a.y + 1 == b.y || b.y + 1 == a.y)) || (a.y == b.y && (a.x + 1 == b.x || b.x + 1
        == a.x))
}

/// Whether `p` is a walk through the grid's empty floor: every step lies on
/// an in-bounds empty tile, and consecutive steps are cardinal neighbors.
pub open spec fn path_ok(room: Room, p: Seq<Location>) -> bool {
    (forall|i: int|
        0 <= i < p.len() ==> room.loc_in_bounds(#[trigger] p[i]) && room.empty_at(p[i]))
        && (forall|i: int| 0 <= i < p.len() - 1 ==> adjacent(#[trigger] p[i], p[i + 1]))
}

/// Whether `b` can be reached from `a` through empty tiles by cardinal steps.
pub open spec fn reaches(room: Room, a: Location, b: Location) -> bool {
    exists|p: Seq<Location>|
        #[trigger] path_ok(room, p) && p.len() > 0 && p.first() == a && p.last() == b
}

/// An empty tile reaches itself.
pub proof fn lemma_reaches_self(room: Room, a: Location)
    requires
        room.loc_in_bounds(a),
        room.empty_at(a),
    ensures
        reaches(room, a, a),
{
    let p = seq![a];
    assert(path_ok(room, p));
}

/// Reachability extends by one step to an empty cardinal neighbor.
pub proof fn lemma_reaches_step(room: Room, a: Location, b: Location, n: Location)
    requires
        reaches(room, a, b),
        adjacent(b, n),
        room.loc_in_bounds(n),
        room.empty_at(n),
    ensures
        reaches(room, a, n),
{
    let p = choose|p: Seq<Location>|
        #[trigger] path_ok(room, p) && p.len() > 0 && p.first() == a && p.last() == b;
    let q = p.push(n);
    assert(path_ok(room, q)) by {
        assert(forall|i: int| 0 <= i < p.len() ==> q[i] == p[i]);
        assert(q[q.len() - 1] == n);
        assert(adjacent(q[q.len() - 2], q[q.len() - 1]));
    }
    assert(q.first() == a && q.last() == n);
}

/// A list of tiles closed under adjacency swallows every walk that starts in
/// it: the last tile of the walk is listed too.
proof fn lemma_closed_list_catches_path(room: Room, tiles: Seq<Location>, p: Seq<Location>)
    requires
        forall|i: int, n: Location|
            0 <= i < tiles.len() && #[trigger] adjacent(tiles[i], n) && room.loc_in_bounds(n)
                && room.empty_at(n) ==> tiles.contains(n),
        path_ok(room, p),
        p.len() > 0,
        tiles.contains(p.first()),
    ensures
        tiles.contains(p.last()),
    decreases p.len(),
{
    if p.len() > 1 {
        let q = p.drop_last();
        assert(path_ok(room, q)) by {
            assert(forall|i: int| 0 <= i < q.len() ==> q[i] == p[i]);
        }
        lemma_closed_list_catches_path(room, tiles, q);
        let i = choose|i: int| 0 <= i < tiles.len() && tiles[i] == q.last();
        assert(adjacent(p[p.len() - 2], p[p.len() - 1]));
        assert(adjacent(tiles[i], p.last()));
    }
}

/// A nonempty list of tiles that is closed under adjacency, and each of whose
/// tiles its first tile reaches, is exactly one connected region: it holds an
/// empty in-bounds tile if and only if that tile is reachable from the first
/// one. `find_chambers` establishes both hypotheses for every chamber, so
/// each chamber is precisely the region of floor around its first tile.
pub proof fn lemma_chamber_is_connected_region(
    room: Room,
    tiles: Seq<Location>,
    l: Location,
)
    requires
        forall|i: int, n: Location|
            0 <= i < tiles.len() && #[trigger] adjacent(tiles[i], n) && room.loc_in_bounds(n)
                && room.empty_at(n) ==> tiles.contains(n),
        tiles.len() > 0,
        forall|i: int| 0 <= i < tiles.len() ==> reaches(room, tiles[0], #[trigger] tiles[i]),
        room.loc_in_bounds(l),
        room.empty_at(l),
    ensures
        tiles.contains(l) <==> reaches(room, tiles[0], l),
{
    if tiles.contains(l) {
        let i = choose|i: int| 0 <= i < tiles.len() && tiles[i] == l;
        assert(reaches(room, tiles[0], tiles[i]));
    }
    if reaches(room, tiles[0], l) {
        let p = choose|p: Seq<Location>|
            #[trigger] path_ok(room, p) && p.len() > 0 && p.first() == tiles[0] && p.last() == l;
        assert(tiles.contains(tiles[0]));
        lemma_closed_list_catches_path(room, tiles, p);
    }
}

/// The number of `false` entries of a mark array.
pub open spec fn count_unmarked(s: Seq<bool>) -> nat
    decreases s.len(),
{
    if s.len() == 0 {
        0
    } else {
        count_unmarked(s.drop_last()) + if s.last() {
            0nat
        } else {
            1nat
        }
    }
}

/// Marking one unmarked entry lowers the unmarked count by one.
proof fn lemma_count_unmarked_update(s: Seq<bool>, k: int)
    requires
        0 <= k < s.len(),
        !s[k],
    ensures
        count_unmarked(s.update(k, true)) + 1 == count_unmarked(s),
    decreases s.len(),
{
    let u = s.update(k, true);
    if k == s.len() - 1 {
        assert(u.drop_last() =~= s.drop_last());
    } else {
        assert(u.drop_last() =~= s.drop_last().update(k, true));
        lemma_count_unmarked_update(s.drop_last(), k);
    }
}

impl Room {
    /// Whether `l` lies inside the grid.
    pub open spec fn loc_in_bounds(&self, l: Location) -> bool {
        l.x < self.spec_width() && l.y < self.spec_height()
    }

    /// Whether the tile at `l` is empty floor.
    pub open spec fn empty_at(&self, l: Location) -> bool {
        self.tile_at(l.x as int, l.y as int) == Some(TileType::Empty)
    }

    /// The row-major index of `l`.
    pub open spec fn loc_index(&self, l: Location) -> int {
        l.y * self.spec_width() + l.x
    }

    /// Whether the mark array marks `l`.
    pub open spec fn marked(&self, marks: Seq<bool>, l: Location) -> bool {
        marks[self.loc_index(l)]
    }

    /// Whether a visit to `l` would mark it: its tile is empty floor and it
    /// is not yet marked.
    pub open spec fn should_visit(&self, marks: Seq<bool>, l: Location) -> bool {
        self.empty_at(l) && !self.marked(marks, l)
    }

    /// An in-bounds location's row-major index lies within the tile array.
    proof fn lemma_loc_bounds(&self, l: Location)
        requires
            self.wf(),
            self.loc_in_bounds(l),
        ensures
            0 <= self.loc_index(l) < self.spec_width() * self.spec_height(),
            self.spec_width() * self.spec_height() <= MAX_DIM * MAX_DIM,
    {
        crate::room::lemma_row_major_index_bounds(
            self.spec_width(),
            self.spec_height(),
            l.x as int,
            l.y as int,
        );
    }

    /// Distinct in-bounds locations have distinct row-major indices.
    #[verifier::nonlinear]
    proof fn lemma_loc_index_injective(&self, a: Location, b: Location)
        requires
            self.wf(),
            self.loc_in_bounds(a),
            self.loc_in_bounds(b),
            self.loc_index(a) == self.loc_index(b),
        ensures
            a == b,
    {
    }

    /// Marks `l` and queues it when it is unmarked empty floor; does nothing
    /// otherwise. Either way the sum of unmarked cells and queued locations
    /// stays the same.
    fn try_visit(&self, l: Location, visited: &mut Vec<bool>, stack: &mut Vec<Location>)
        requires
            self.wf(),
            old(visited)@.len() == self.spec_width() * self.spec_height(),
            self.loc_in_bounds(l),
        ensures
            final(visited)@.len() == old(visited)@.len(),
            self.should_visit(old(visited)@, l) ==> final(stack)@ == old(stack)@.push(l),
            !self.should_visit(old(visited)@, l) ==> final(visited)@ == old(visited)@
                && final(stack)@ == old(stack)@,
            forall|k: int| 0 <= k < old(visited)@.len() && old(visited)@[k] ==> final(visited)@[k],
            self.empty_at(l) ==> self.marked(final(visited)@, l),
            forall|m: Location|
                self.loc_in_bounds(m) ==> (self.marked(final(visited)@, m) <==> (self.marked(
                    old(visited)@,
                    m,
                ) || (self.should_visit(old(visited)@, l) && m == l))),
            forall|m: Location|
                final(stack)@.contains(m) <==> (old(stack)@.contains(m) || (self.should_visit(
                    old(visited)@,
                    l,
                ) && m == l)),
            count_unmarked(final(visited)@) + final(stack)@.len() == count_unmarked(old(visited)@)
                + old(stack)@.len(),
    {
        broadcast use group_seq_properties;

        proof {
            self.lemma_loc_bounds(l);
        }
        let idx = l.y * self.width() + l.x;
        let tile = self.get(l.x, l.y);
        let is_empty = match tile {
            Some(TileType::Empty) => true,
            _ => false,
        };
        if is_empty && !visited[idx] {
            proof {
                lemma_count_unmarked_update(visited@, idx as int);
            }
            visited.set(idx, true);
            stack.push(l);
            proof {
                assert forall|m: Location| self.loc_in_bounds(m) implies (self.marked(visited@, m)
                    <==> (self.marked(old(visited)@, m) || m == l)) by {
                    self.lemma_loc_bounds(m);
                    if self.loc_index(m) == self.loc_index(l) {
                        self.lemma_loc_index_injective(m, l);
                    }
                }
            }
        }
    }

    /// Collects the chamber of empty tiles around `start` into one `Chamber`,
    /// marking every collected tile.
    ///
    /// The chamber's tiles are exactly the newly marked cells: in-bounds
    /// empty tiles, listed once each, starting with `start`; and every empty
    /// in-bounds neighbor of a collected tile ends up marked (it either
    /// already was, or the fill reached it).
    #[verifier::rlimit(60)]
    pub fn spread_from_tile(&self, start: Location, visited: &mut Vec<bool>) -> (chamber: Chamber)
        requires
            self.wf(),
            old(visited)@.len() == self.spec_width() * self.spec_height(),
            self.loc_in_bounds(start),
            self.empty_at(start),
            !self.marked(old(visited)@, start),
        ensures
            final(visited)@.len() == old(visited)@.len(),
            forall|k: int| 0 <= k < old(visited)@.len() && old(visited)@[k] ==> final(visited)@[k],
            forall|l: Location|
                self.loc_in_bounds(l) ==> ((self.marked(final(visited)@, l) && !self.marked(
                    old(visited)@,
                    l,
                )) <==> chamber.tiles@.contains(l)),
            chamber.tiles@.no_duplicates(),
            forall|i: int|
                0 <= i < chamber.tiles@.len() ==> self.loc_in_bounds(#[trigger] chamber.tiles@[i])
                    && self.empty_at(chamber.tiles@[i]),
            chamber.tiles@.len() > 0,
            chamber.tiles@[0] == start,
            forall|i: int|
                0 <= i < chamber.tiles@.len() ==> reaches(*self, start, #[trigger] chamber.tiles@[i]),
            forall|i: int, n: Location|
                0 <= i < chamber.tiles@.len() && #[trigger] adjacent(chamber.tiles@[i], n)
                    && self.loc_in_bounds(n) && self.empty_at(n) ==> self.marked(
                    final(visited)@,
                    n,
                ),
    {
        broadcast use group_seq_properties;

        let ghost ov = old(visited)@;
        let mut stack: Vec<Location> = Vec::new();
        let mut tiles: Vec<Location> = Vec::new();
        proof {
            self.lemma_loc_bounds(start);
            lemma_count_unmarked_update(visited@, self.loc_index(start));
        }
        let idx = start.y * self.width() + start.x;
        visited.set(idx, true);
        stack.push(start);
        proof {
            lemma_reaches_self(*self, start);
            assert forall|l: Location| self.loc_in_bounds(l) implies ((self.marked(visited@, l)
                && !self.marked(ov, l)) <==> (stack@.contains(l) || tiles@.contains(l))) by {
                self.lemma_loc_bounds(l);
                if self.loc_index(l) == self.loc_index(start) {
                    self.lemma_loc_index_injective(l, start);
                }
                assert(stack@[0] == start);
            }
        }
        while stack.len() > 0
            invariant
                self.wf(),
                visited@.len() == self.spec_width() * self.spec_height(),
                ov.len() == visited@.len(),
                forall|k: int| 0 <= k < ov.len() && ov[k] ==> visited@[k],
                forall|l: Location|
                    self.loc_in_bounds(l) ==> ((self.marked(visited@, l) && !self.marked(ov, l))
                        <==> (stack@.contains(l) || tiles@.contains(l))),
                forall|i: int|
                    0 <= i < stack@.len() ==> self.loc_in_bounds(#[trigger] stack@[i])
                        && self.empty_at(stack@[i]),
                forall|i: int|
                    0 <= i < tiles@.len() ==> self.loc_in_bounds(#[trigger] tiles@[i])
                        && self.empty_at(tiles@[i]),
                stack@.no_duplicates(),
                tiles@.no_duplicates(),
                forall|l: Location| !(stack@.contains(l) && tiles@.contains(l)),
                forall|i: int, n: Location|
                    0 <= i < tiles@.len() && #[trigger] adjacent(tiles@[i], n)
                        && self.loc_in_bounds(n) && self.empty_at(n) ==> self.marked(visited@, n),
                tiles@.len() == 0 ==> stack@ == seq![start],
                tiles@.len() > 0 ==> tiles@[0] == start,
                forall|i: int| 0 <= i < stack@.len() ==> reaches(*self, start, #[trigger] stack@[i]),
                forall|i: int| 0 <= i < tiles@.len() ==> reaches(*self, start, #[trigger] tiles@[i]),
            decreases count_unmarked(visited@) + stack@.len(),
        {
            let ghost stack_before = stack@;
            let ghost tiles_before = tiles@;
            let ghost marks_before = visited@;
            if let Some(l) = stack.pop() {
                proof {
                    assert(stack_before[stack_before.len() - 1] == l);
                    assert(stack_before.contains(l));
                    // The popped location leaves the stack entirely: it was
                    // listed once.
                    assert forall|m: Location| #[trigger]
                        stack@.contains(m) implies stack_before.contains(m) && m != l by {
                        let j = choose|j: int| 0 <= j < stack@.len() && stack@[j] == m;
                        assert(stack_before[j] == m);
                    }
                    assert forall|m: Location|
                        stack_before.contains(m) && m != l implies #[trigger] stack@.contains(
                        m,
                    ) by {
                        let j = choose|j: int| 0 <= j < stack_before.len() && stack_before[j] == m;
                        assert(stack@[j] == m);
                    }
                }
                // Visit the cardinal neighbors of the popped tile.
                let mut cands: Vec<Location> = Vec::new();
                if l.y > 0 {
                    cands.push(Location { x: l.x, y: l.y - 1 });
                }
                if l.y + 1 < self.height() {
                    cands.push(Location { x: l.x, y: l.y + 1 });
                }
                if l.x > 0 {
                    cands.push(Location { x: l.x - 1, y: l.y });
                }
                if l.x + 1 < self.width() {
                    cands.push(Location { x: l.x + 1, y: l.y });
                }
                proof {
                    let i2: int = if l.y > 0 { 1 } else { 0 };
                    let i3: int = i2 + if l.y + 1 < self.spec_height() { 1int } else { 0 };
                    let i4: int = i3 + if l.x > 0 { 1int } else { 0 };
                    if l.y > 0 {
                        assert(cands@[0] == (Location { x: l.x, y: (l.y - 1) as usize }));
                        assert(cands@.contains(Location { x: l.x, y: (l.y - 1) as usize }));
                    }
                    if l.y + 1 < self.spec_height() {
                        assert(cands@[i2] == (Location { x: l.x, y: (l.y + 1) as usize }));
                        assert(cands@.contains(Location { x: l.x, y: (l.y + 1) as usize }));
                    }
                    if l.x > 0 {
                        assert(cands@[i3] == (Location { x: (l.x - 1) as usize, y: l.y }));
                        assert(cands@.contains(Location { x: (l.x - 1) as usize, y: l.y }));
                    }
                    if l.x + 1 < self.spec_width() {
                        assert(cands@[i4] == (Location { x: (l.x + 1) as usize, y: l.y }));
                        assert(cands@.contains(Location { x: (l.x + 1) as usize, y: l.y }));
                    }
                    assert(forall|i: int| 0 <= i < cands@.len() ==> adjacent(l, #[trigger] cands@[i]));
                    // The candidate list catches every in-bounds neighbor.
                    assert forall|n: Location|
                        adjacent(l, n) && self.loc_in_bounds(n) implies cands@.contains(n) by {
                        if n.x == l.x && n.y + 1 == l.y {
                            assert(n == (Location { x: l.x, y: (l.y - 1) as usize }));
                        } else if n.x == l.x && l.y + 1 == n.y {
                            assert(n == (Location { x: l.x, y: (l.y + 1) as usize }));
                        } else if n.y == l.y && n.x + 1 == l.x {
                            assert(n == (Location { x: (l.x - 1) as usize, y: l.y }));
                        } else {
                            assert(n == (Location { x: (l.x + 1) as usize, y: l.y }));
                        }
                    }
                }
                let ghost stack_popped = stack@;
                let mut j: usize = 0;
                while j < cands.len()
                    invariant
                        self.wf(),
                        visited@.len() == self.spec_width() * self.spec_height(),
                        ov.len() == visited@.len(),
                        j <= cands@.len(),
                        forall|i: int|
                            0 <= i < cands@.len() ==> self.loc_in_bounds(#[trigger] cands@[i]),
                        tiles@ == tiles_before,
                        self.loc_in_bounds(l),
                        self.empty_at(l),
                        self.marked(visited@, l),
                        !self.marked(ov, l),
                        !tiles@.contains(l),
                        forall|k: int| 0 <= k < ov.len() && ov[k] ==> visited@[k],
                        forall|m: Location|
                            self.loc_in_bounds(m) ==> ((self.marked(visited@, m) && !self.marked(
                                ov,
                                m,
                            )) <==> (stack@.contains(m) || tiles@.contains(m) || m == l)),
                        forall|i: int|
                            0 <= i < stack@.len() ==> self.loc_in_bounds(#[trigger] stack@[i])
                                && self.empty_at(stack@[i]),
                        stack@.no_duplicates(),
                        !stack@.contains(l),
                        forall|m: Location| !(stack@.contains(m) && tiles@.contains(m)),
                        forall|i: int, n: Location|
                            0 <= i < tiles@.len() && #[trigger] adjacent(tiles@[i], n)
                                && self.loc_in_bounds(n) && self.empty_at(n) ==> self.marked(
                                visited@,
                                n,
                            ),
                        forall|i: int|
                            0 <= i < j ==> (self.empty_at(#[trigger] cands@[i]) ==> self.marked(
                                visited@,
                                cands@[i],
                            )),
                        reaches(*self, start, l),
                        forall|i: int|
                            0 <= i < cands@.len() ==> adjacent(l, #[trigger] cands@[i]),
                        forall|i: int|
                            0 <= i < stack@.len() ==> reaches(*self, start, #[trigger] stack@[i]),
                        forall|i: int|
                            0 <= i < tiles@.len() ==> reaches(*self, start, #[trigger] tiles@[i]),
                        count_unmarked(visited@) + stack@.len() == count_unmarked(marks_before)
                            + stack_popped.len(),
                    decreases cands@.len() - j,
                {
                    let ghost g_before = visited@;
                    let ghost s_before = stack@;
                    let cand = cands[j];
                    self.try_visit(cand, visited, &mut stack);
                    proof {
                        if self.should_visit(g_before, cand) {
                            // The newly queued cell was unmarked, so it sat in
                            // neither list; one more step reaches it.
                            self.lemma_loc_bounds(cand);
                            lemma_reaches_step(*self, start, l, cand);
                            assert(!self.marked(ov, cand));
                            assert(!s_before.contains(cand));
                            assert(!tiles@.contains(cand));
                            assert(cand != l);
                            assert(stack@.no_duplicates());
                        }
                        // Previously established marks survive the visit.
                        assert forall|i: int|
                            0 <= i < j + 1 implies (self.empty_at(#[trigger] cands@[i])
                            ==> self.marked(visited@, cands@[i])) by {
                            self.lemma_loc_bounds(cands@[i]);
                        }
                        assert forall|i: int, n: Location|
                            0 <= i < tiles@.len() && #[trigger] adjacent(tiles@[i], n)
                                && self.loc_in_bounds(n) && self.empty_at(
                                n,
                            ) implies self.marked(visited@, n) by {
                            self.lemma_loc_bounds(n);
                        }
                    }
                    j += 1;
                }
                let ghost stack_after = stack@;
                let ghost marks_after = visited@;
                tiles.push(l);
                proof {
                    assert(tiles@.drop_last() =~= tiles_before);
                    assert(tiles@.last() == l);
                    assert(tiles@.contains(l));
                    // The freshly collected tile keeps the list duplicate-free
                    // and disjoint from the stack, and its neighbors are all
                    // marked now.
                    assert forall|m: Location| #[trigger]
                        tiles@.contains(m) implies (tiles_before.contains(m) || m == l) by {
                        let i = choose|i: int| 0 <= i < tiles@.len() && tiles@[i] == m;
                        if i < tiles@.len() - 1 {
                            assert(tiles_before[i] == m);
                        }
                    }
                    assert forall|i: int, n: Location|
                        0 <= i < tiles@.len() && #[trigger] adjacent(tiles@[i], n)
                            && self.loc_in_bounds(n) && self.empty_at(n) implies self.marked(
                        visited@,
                        n,
                    ) by {
                        if i == tiles@.len() - 1 {
                            assert(tiles@[i] == l);
                            assert(cands@.contains(n));
                            let jj = choose|jj: int| 0 <= jj < cands@.len() && cands@[jj] == n;
                        } else {
                            assert(adjacent(tiles_before[i], n));
                        }
                    }
                    assert(tiles@.no_duplicates());
                    assert forall|m: Location| !(stack@.contains(m) && tiles@.contains(m)) by {
                        if stack@.contains(m) && tiles@.contains(m) {
                            assert(tiles_before.contains(m) || m == l);
                        }
                    }
                    assert forall|m: Location| self.loc_in_bounds(m) implies ((self.marked(
                        visited@,
                        m,
                    ) && !self.marked(ov, m)) <==> (stack@.contains(m) || tiles@.contains(
                        m,
                    ))) by {
                        assert((self.marked(visited@, m) && !self.marked(ov, m)) <==> (
                        stack@.contains(m) || tiles_before.contains(m) || m == l));
                    }
                    assert(tiles@[0] == start) by {
                        if tiles_before.len() == 0 {
                            assert(stack_before == seq![start]);
                            assert(l == start);
                        } else {
                            assert(tiles@[0] == tiles_before[0]);
                        }
                    }
                }
            }
        }
        proof {
            assert(tiles@.len() > 0) by {
                if tiles@.len() == 0 {
                    assert(stack@ == seq![start]);
                }
            }
        }
        Chamber { tiles }
    }

    /// Partitions the empty tiles of the grid into chambers.
    ///
    /// Every listed tile is an in-bounds empty tile; every in-bounds empty
    /// tile appears in exactly one chamber, and exactly once there; and each
    /// chamber is closed under adjacency: an empty neighbor of one of its
    /// tiles belongs to the same chamber.
    pub fn find_chambers(&self) -> (chambers: Vec<Chamber>)
        requires
            self.wf(),
        ensures
            forall|c: int, i: int|
                0 <= c < chambers@.len() && 0 <= i < chambers@[c].tiles@.len()
                    ==> self.loc_in_bounds(#[trigger] chambers@[c].tiles@[i]) && self.empty_at(
                    chambers@[c].tiles@[i],
                ),
            forall|c: int|
                0 <= c < chambers@.len() ==> (#[trigger] chambers@[c].tiles@).len() > 0
                    && chambers@[c].tiles@.no_duplicates(),
            forall|l: Location|
                self.loc_in_bounds(l) && self.empty_at(l) ==> exists|c: int|
                    0 <= c < chambers@.len() && (#[trigger] chambers@[c].tiles@.contains(l)),
            forall|c1: int, c2: int, l: Location|
                0 <= c1 < chambers@.len() && 0 <= c2 < chambers@.len() && (
                #[trigger] chambers@[c1].tiles@.contains(l)) && (
                #[trigger] chambers@[c2].tiles@.contains(l)) ==> c1 == c2,
            forall|c: int, i: int, n: Location|
                0 <= c < chambers@.len() && 0 <= i < chambers@[c].tiles@.len()
                    && #[trigger] adjacent(chambers@[c].tiles@[i], n) && self.loc_in_bounds(n)
                    && self.empty_at(n) ==> chambers@[c].tiles@.contains(n),
            forall|c: int, i: int|
                0 <= c < chambers@.len() && 0 <= i < chambers@[c].tiles@.len() ==> reaches(
                    *self,
                    chambers@[c].tiles@[0],
                    #[trigger] chambers@[c].tiles@[i],
                ),
    {
        broadcast use group_seq_properties;

        let width = self.width();
        let height = self.height();
        let total = self.total_tiles();
        let mut visited: Vec<bool> = Vec::new();
        let mut k: usize = 0;
        while k < total
            invariant
                k <= total,
                visited@.len() == k,
                forall|j: int| 0 <= j < k ==> !visited@[j],
            decreases total - k,
        {
            visited.push(false);
            k += 1;
        }
        let mut chambers: Vec<Chamber> = Vec::new();
        proof {
            assert forall|l: Location| self.loc_in_bounds(l) implies !self.marked(visited@, l) by {
                self.lemma_loc_bounds(l);
            }
        }
        let mut x: usize = 0;
        while x < width
            invariant
                self.wf(),
                width == self.spec_width(),
                height == self.spec_height(),
                x <= width,
                visited@.len() == self.spec_width() * self.spec_height(),
                // a marked cell lies in some chamber, and conversely
                forall|l: Location|
                    self.loc_in_bounds(l) ==> (self.marked(visited@, l) <==> exists|c: int|
                        0 <= c < chambers@.len() && (#[trigger] chambers@[c].tiles@.contains(l))),
                // chambers hold in-bounds empty tiles, once each
                forall|c: int, i: int|
                    0 <= c < chambers@.len() && 0 <= i < chambers@[c].tiles@.len()
                        ==> self.loc_in_bounds(#[trigger] chambers@[c].tiles@[i]) && self.empty_at(
                        chambers@[c].tiles@[i],
                    ),
                forall|c: int|
                    0 <= c < chambers@.len() ==> (#[trigger] chambers@[c].tiles@).len() > 0
                        && chambers@[c].tiles@.no_duplicates(),
                forall|c1: int, c2: int, l: Location|
                    0 <= c1 < chambers@.len() && 0 <= c2 < chambers@.len() && (
                    #[trigger] chambers@[c1].tiles@.contains(l)) && (
                    #[trigger] chambers@[c2].tiles@.contains(l)) ==> c1 == c2,
                // chambers are closed under adjacency
                forall|c: int, i: int, n: Location|
                    0 <= c < chambers@.len() && 0 <= i < chambers@[c].tiles@.len()
                        && #[trigger] adjacent(chambers@[c].tiles@[i], n) && self.loc_in_bounds(n)
                        && self.empty_at(n) ==> chambers@[c].tiles@.contains(n),
                forall|c: int, i: int|
                    0 <= c < chambers@.len() && 0 <= i < chambers@[c].tiles@.len() ==> reaches(
                        *self,
                        chambers@[c].tiles@[0],
                        #[trigger] chambers@[c].tiles@[i],
                    ),
                // every empty cell in a fully scanned column is marked
                forall|l: Location|
                    self.loc_in_bounds(l) && l.x < x && self.empty_at(l) ==> self.marked(
                        visited@,
                        l,
                    ),
            decreases width - x,
        {
            let mut y: usize = 0;
            while y < height
                invariant
                    self.wf(),
                    width == self.spec_width(),
                    height == self.spec_height(),
                    x < width,
                    y <= height,
                    visited@.len() == self.spec_width() * self.spec_height(),
                    forall|l: Location|
                        self.loc_in_bounds(l) ==> (self.marked(visited@, l) <==> exists|c: int|
                            0 <= c < chambers@.len() && (#[trigger] chambers@[c].tiles@.contains(
                                l,
                            ))),
                    forall|c: int, i: int|
                        0 <= c < chambers@.len() && 0 <= i < chambers@[c].tiles@.len()
                            ==> self.loc_in_bounds(#[trigger] chambers@[c].tiles@[i])
                            && self.empty_at(chambers@[c].tiles@[i]),
                    forall|c: int|
                        0 <= c < chambers@.len() ==> (#[trigger] chambers@[c].tiles@).len() > 0
                            && chambers@[c].tiles@.no_duplicates(),
                    forall|c1: int, c2: int, l: Location|
                        0 <= c1 < chambers@.len() && 0 <= c2 < chambers@.len() && (
                        #[trigger] chambers@[c1].tiles@.contains(l)) && (
                        #[trigger] chambers@[c2].tiles@.contains(l)) ==> c1 == c2,
                    forall|c: int, i: int, n: Location|
                        0 <= c < chambers@.len() && 0 <= i < chambers@[c].tiles@.len()
                            && #[trigger] adjacent(chambers@[c].tiles@[i], n)
                            && self.loc_in_bounds(n) && self.empty_at(n)
                            ==> chambers@[c].tiles@.contains(n),
                    forall|c: int, i: int|
                        0 <= c < chambers@.len() && 0 <= i < chambers@[c].tiles@.len() ==> reaches(
                            *self,
                            chambers@[c].tiles@[0],
                            #[trigger] chambers@[c].tiles@[i],
                        ),
                    forall|l: Location|
                        self.loc_in_bounds(l) && (l.x < x || (l.x == x && l.y < y))
                            && self.empty_at(l) ==> self.marked(visited@, l),
                decreases height - y,
            {
                proof {
                    self.lemma_loc_bounds(Location { x, y });
                }
                let idx = y * width + x;
                let tile = self.get(x, y);
                let is_empty = match tile {
                    Some(TileType::Empty) => true,
                    _ => false,
                };
                if is_empty && !visited[idx] {
                    let here = Location { x, y };
                    let ghost marks_before = visited@;
                    let ghost chambers_before = chambers@;
                    let chamber = self.spread_from_tile(here, &mut visited);
                    chambers.push(chamber);
                    proof {
                        let cs = chambers@;
                        let new_c = cs.len() - 1;
                        assert(cs[new_c].tiles@[0] == here);
                        assert(cs[new_c].tiles@.contains(here));
                        // Marked cells and chamber membership stay in step.
                        assert forall|l: Location| self.loc_in_bounds(l) implies (self.marked(
                            visited@,
                            l,
                        ) <==> exists|c: int|
                            0 <= c < cs.len() && (#[trigger] cs[c].tiles@.contains(l))) by {
                            self.lemma_loc_bounds(l);
                            if self.marked(visited@, l) {
                                if self.marked(marks_before, l) {
                                    let c = choose|c: int|
                                        0 <= c < chambers_before.len()
                                            && #[trigger] chambers_before[c].tiles@.contains(l);
                                    assert(cs[c].tiles@.contains(l));
                                } else {
                                    assert(cs[new_c].tiles@.contains(l));
                                }
                            } else {
                                assert forall|c: int|
                                    0 <= c < cs.len() implies !(#[trigger] cs[c].tiles@.contains(
                                    l,
                                )) by {
                                    if c < new_c {
                                        if cs[c].tiles@.contains(l) {
                                            assert(self.marked(marks_before, l));
                                        }
                                    }
                                }
                            }
                        }
                        // Old chambers lie within the old marks; the new one
                        // outside them: the lists stay disjoint.
                        assert forall|c1: int, c2: int, l: Location|
                            0 <= c1 < cs.len() && 0 <= c2 < cs.len() && (
                            #[trigger] cs[c1].tiles@.contains(l)) && (
                            #[trigger] cs[c2].tiles@.contains(l)) implies c1 == c2 by {
                            self.lemma_loc_bounds(l);
                            if c1 < new_c && c2 == new_c {
                                assert(self.marked(marks_before, l));
                            } else if c2 < new_c && c1 == new_c {
                                assert(self.marked(marks_before, l));
                            }
                        }
                        // The new chamber is closed under adjacency: a marked
                        // empty neighbor either joined it, or sat in an older
                        // chamber, whose own closure that would contradict.
                        assert forall|c: int, i: int, n: Location|
                            0 <= c < cs.len() && 0 <= i < cs[c].tiles@.len()
                                && #[trigger] adjacent(cs[c].tiles@[i], n) && self.loc_in_bounds(
                                n,
                            ) && self.empty_at(n) implies cs[c].tiles@.contains(n) by {
                            self.lemma_loc_bounds(n);
                            if c == new_c {
                                let l = cs[new_c].tiles@[i];
                                self.lemma_loc_bounds(l);
                                assert(self.marked(visited@, n));
                                if self.marked(marks_before, n) {
                                    let c0 = choose|c0: int|
                                        0 <= c0 < chambers_before.len()
                                            && #[trigger] chambers_before[c0].tiles@.contains(n);
                                    let j = choose|j: int|
                                        0 <= j < chambers_before[c0].tiles@.len()
                                            && chambers_before[c0].tiles@[j] == n;
                                    assert(adjacent(chambers_before[c0].tiles@[j], l));
                                    assert(chambers_before[c0].tiles@.contains(l));
                                    assert(self.marked(marks_before, l));
                                    assert(cs[new_c].tiles@.contains(l));
                                    assert(false);
                                }
                            }
                        }
                        // Everything scanned so far is marked when empty.
                        assert forall|l: Location|
                            self.loc_in_bounds(l) && (l.x < x || (l.x == x && l.y < y + 1))
                                && self.empty_at(l) implies self.marked(visited@, l) by {
                            self.lemma_loc_bounds(l);
                            if l != here {
                                assert(self.marked(marks_before, l));
                            }
                        }
                    }
                }
                proof {
                    if self.empty_at(Location { x, y }) && !self.marked(
                        visited@,
                        Location { x, y },
                    ) {
                        assert(false);
                    }
                }
                y += 1;
            }
            x += 1;
        }
        chambers
    }
}

} // verus!
