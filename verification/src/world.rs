//! The grid of cells.

use vstd::prelude::*;

use crate::cell::Cell;
use crate::cell::Ruleset;
use crate::cell::ruleset_of;
use crate::cell::spec_swap;
use crate::cell::spec_transition;

verus! {

/// 1 if `(i, j)` lies inside the grid and holds an alive cell, else 0.
pub open spec fn live_at(g: Seq<Seq<Cell>>, i: int, j: int) -> int {
    if 0 <= i < g.len() && 0 <= j < g[i].len() && g[i][j] == Cell::Alive {
        1
    } else {
        0
    }
}

/// The number of alive cells among the 8 Moore neighbors of `(i, j)`;
/// positions outside the grid are absent, not wrapped around.
pub open spec fn live_neighbors(g: Seq<Seq<Cell>>, i: int, j: int) -> int {
    live_at(g, i - 1, j - 1) + live_at(g, i - 1, j) + live_at(g, i - 1, j + 1) + live_at(
        g,
        i,
        j - 1,
    ) + live_at(g, i, j + 1) + live_at(g, i + 1, j - 1) + live_at(g, i + 1, j) + live_at(
        g,
        i + 1,
        j + 1,
    )
}

/// The next generation: every cell's transition under `rs`, with all
/// neighbor counts taken from the one pre-step grid `g`.
pub open spec fn step_grid(g: Seq<Seq<Cell>>, rs: Ruleset) -> Seq<Seq<Cell>> {
    Seq::new(
        g.len(),
        |i: int|
            Seq::new(
                g[i].len(),
                |j: int| spec_transition(rs, g[i][j], live_neighbors(g, i, j)),
            ),
    )
}

/// The grid with every cell replaced by its opposite state.
pub open spec fn grid_invert(g: Seq<Seq<Cell>>) -> Seq<Seq<Cell>> {
    g.map_values(|row: Seq<Cell>| row.map_values(|c: Cell| spec_swap(c)))
}

/// What holds of a randomized cell: certainly alive at a density of 100 or
/// more, certainly dead at a density of 0, unconstrained in between.
pub open spec fn rand_ok(dist: u32, c: Cell) -> bool {
    &&& dist >= 100 ==> c == Cell::Alive
    &&& dist == 0 ==> c == Cell::Dead
}

/// Relies on rand::random_range: a draw from the thread-local generator,
/// uniform over the given range. The range `0..100` is not empty, so the
/// call does not panic, and every outcome lies below 100.
#[verifier::external_body]
fn random_percent() -> (r: u32)
    ensures
        r < 100,
{
    rand::random_range(0u32..100)
}

/// A rectangular field of cells, `x` rows of `y` cells each.
#[derive(Clone)]
pub struct World {
    pub x: u32,
    pub y: u32,
    pub world: Vec<Vec<Cell>>,
}

impl View for World {
    type V = Seq<Seq<Cell>>;

    open spec fn view(&self) -> Seq<Seq<Cell>> {
        self.world@.map_values(|r: Vec<Cell>| r@)
    }
}

impl World {
    /// The field holds exactly `x` rows of `y` cells each.
    pub open spec fn wf(self) -> bool {
        &&& self@.len() == self.x as int
        &&& forall|i: int| 0 <= i < self@.len() ==> (#[trigger] self@[i]).len() == self.y as int
    }

    /// A grid of the given dimensions with every cell dead.
    pub fn new(x: u32, y: u32) -> (w: World)
        ensures
            w.wf(),
            w.x == x,
            w.y == y,
            forall|i: int, j: int|
                0 <= i < x && 0 <= j < y ==> #[trigger] w@[i][j] == Cell::Dead,
    {
        let mut rows: Vec<Vec<Cell>> = Vec::new();
        let mut i: u32 = 0;
        while i < x
            invariant
                i <= x,
                rows@.len() == i as int,
                forall|k: int| 0 <= k < i as int ==> (#[trigger] rows@[k])@.len() == y as int,
                forall|k: int, j: int|
                    0 <= k < i as int && 0 <= j < y as int ==> #[trigger] rows@[k]@[j]
                        == Cell::Dead,
            decreases x - i,
        {
            let row: Vec<Cell> = vec![Cell::Dead; y as usize];
            rows.push(row);
            i = i + 1;
        }
        World { x, y, world: rows }
    }

    /// The cell at `(i, j)`; callers must bounds-check first.
    pub fn get(&self, i: usize, j: usize) -> (c: Cell)
        requires
            self.wf(),
            i < self.x,
            j < self.y,
        ensures
            c == self@[i as int][j as int],
    {
        self.world[i][j]
    }

    /// Writes the cell at `(i, j)`; callers must bounds-check first.
    pub fn set(&mut self, i: usize, j: usize, c: Cell)
        requires
            old(self).wf(),
            i < old(self).x,
            j < old(self).y,
        ensures
            final(self).wf(),
            final(self).x == old(self).x,
            final(self).y == old(self).y,
            final(self)@ == old(self)@.update(
                i as int,
                old(self)@[i as int].update(j as int, c),
            ),
    {
        assert(self.world@[i as int]@ == self@[i as int]);
        self.world[i][j] = c;
        assert(self@ =~~= old(self)@.update(i as int, old(self)@[i as int].update(j as int, c)));
    }

    /// Whether the signed coordinates lie inside the grid.
    pub fn in_world(&self, x: i32, y: i32) -> (b: bool)
        ensures
            b == (0 <= x < self.x as int && 0 <= y < self.y as int),
    {
        x >= 0 && y >= 0 && (x as i64) < (self.x as i64) && (y as i64) < (self.y as i64)
    }

    /// A new grid of the same dimensions with every cell swapped; the
    /// source grid is left untouched.
    pub fn invert(&self) -> (w: World)
        requires
            self.wf(),
        ensures
            w.wf(),
            w.x == self.x,
            w.y == self.y,
            w@ == grid_invert(self@),
    {
        let mut rows: Vec<Vec<Cell>> = Vec::new();
        let mut i: usize = 0;
        let x = self.x as usize;
        let y = self.y as usize;
        while i < x
            invariant
                self.wf(),
                x == self.x as int,
                y == self.y as int,
                i <= x,
                rows@.len() == i as int,
                forall|k: int|
                    0 <= k < i as int ==> (#[trigger] rows@[k])@ == self@[k].map_values(
                        |c: Cell| spec_swap(c),
                    ),
            decreases x - i,
        {
            let mut row: Vec<Cell> = Vec::new();
            let mut j: usize = 0;
            while j < y
                invariant
                    self.wf(),
                    x == self.x as int,
                    y == self.y as int,
                    i < x,
                    j <= y,
                    row@.len() == j as int,
                    forall|l: int|
                        0 <= l < j as int ==> #[trigger] row@[l] == spec_swap(
                            self@[i as int][l],
                        ),
                decreases y - j,
            {
                assert(self.world@[i as int]@ == self@[i as int]);
                let c = self.world[i][j];
                row.push(c.swap());
                j = j + 1;
            }
            assert(row@ =~= self@[i as int].map_values(|c: Cell| spec_swap(c)));
            rows.push(row);
            i = i + 1;
        }
        let w = World { x: self.x, y: self.y, world: rows };
        assert(w@ =~~= grid_invert(self@));
        w
    }

    /// The number of alive cells among the 8 Moore neighbors of `(i, j)`,
    /// counting only positions inside the grid.
    #[verifier::rlimit(50)]
    fn live_neighbor_count(&self, i: usize, j: usize) -> (n: usize)
        requires
            self.wf(),
            i < self.x,
            j < self.y,
        ensures
            n as int == live_neighbors(self@, i as int, j as int),
    {
        let x = self.x as usize;
        let y = self.y as usize;
        let nw: usize = if i > 0 && j > 0 && self.get(i - 1, j - 1) == Cell::Alive {
            1
        } else {
            0
        };
        assert(nw as int == live_at(self@, i as int - 1, j as int - 1));
        let nn: usize = if i > 0 && self.get(i - 1, j) == Cell::Alive {
            1
        } else {
            0
        };
        assert(nn as int == live_at(self@, i as int - 1, j as int));
        let ne: usize = if i > 0 && j + 1 < y && self.get(i - 1, j + 1) == Cell::Alive {
            1
        } else {
            0
        };
        assert(ne as int == live_at(self@, i as int - 1, j as int + 1));
        let ww: usize = if j > 0 && self.get(i, j - 1) == Cell::Alive {
            1
        } else {
            0
        };
        assert(ww as int == live_at(self@, i as int, j as int - 1));
        let ee: usize = if j + 1 < y && self.get(i, j + 1) == Cell::Alive {
            1
        } else {
            0
        };
        assert(ee as int == live_at(self@, i as int, j as int + 1));
        let sw: usize = if i + 1 < x && j > 0 && self.get(i + 1, j - 1) == Cell::Alive {
            1
        } else {
            0
        };
        assert(sw as int == live_at(self@, i as int + 1, j as int - 1));
        let ss: usize = if i + 1 < x && self.get(i + 1, j) == Cell::Alive {
            1
        } else {
            0
        };
        assert(ss as int == live_at(self@, i as int + 1, j as int));
        let se: usize = if i + 1 < x && j + 1 < y && self.get(i + 1, j + 1) == Cell::Alive {
            1
        } else {
            0
        };
        assert(se as int == live_at(self@, i as int + 1, j as int + 1));
        nw + nn + ne + ww + ee + sw + ss + se
    }

    /// Advances the grid one generation under the named rule set: every
    /// cell's next state is its transition on the count of its alive Moore
    /// neighbors, all counts taken from the pre-step grid, and the whole
    /// grid is replaced at once. An unrecognized name leaves every cell
    /// dead.
    pub fn next(&mut self, rules: &str)
        requires
            old(self).wf(),
        ensures
            final(self).wf(),
            final(self).x == old(self).x,
            final(self).y == old(self).y,
            final(self)@ == step_grid(old(self)@, ruleset_of(rules@)),
    {
        let rs = Ruleset::from_name(rules);
        let x = self.x as usize;
        let y = self.y as usize;
        let ghost g0 = self@;
        let mut rows: Vec<Vec<Cell>> = Vec::new();
        let mut i: usize = 0;
        while i < x
            invariant
                self.wf(),
                self@ == g0,
                x == self.x as int,
                y == self.y as int,
                rs == ruleset_of(rules@),
                i <= x,
                rows@.len() == i as int,
                forall|k: int|
                    0 <= k < i as int ==> (#[trigger] rows@[k])@ == step_grid(g0, rs)[k],
            decreases x - i,
        {
            let mut row: Vec<Cell> = Vec::new();
            let mut j: usize = 0;
            while j < y
                invariant
                    self.wf(),
                    self@ == g0,
                    x == self.x as int,
                    y == self.y as int,
                    rs == ruleset_of(rules@),
                    i < x,
                    j <= y,
                    row@.len() == j as int,
                    forall|l: int|
                        0 <= l < j as int ==> #[trigger] row@[l] == step_grid(g0, rs)[i as int][l],
                decreases y - j,
            {
                let count = self.live_neighbor_count(i, j);
                let c = self.get(i, j);
                row.push(c.transition(rs, count));
                j = j + 1;
            }
            assert(row@ =~= step_grid(g0, rs)[i as int]);
            rows.push(row);
            i = i + 1;
        }
        self.world = rows;
        assert(self@ =~~= step_grid(g0, rs));
    }

    /// One row of the grid with every cell written out twice.
    fn doubled_row(&self, i: usize) -> (r: Vec<Cell>)
        requires
            self.wf(),
            i < self.x,
        ensures
            r@.len() == 2 * self.y as int,
            forall|j: int| 0 <= j < 2 * self.y as int ==> #[trigger] r@[j] == self@[i as int][j / 2],
    {
        let y = self.y as usize;
        let mut row: Vec<Cell> = Vec::new();
        let mut j: usize = 0;
        while j < y
            invariant
                self.wf(),
                y == self.y as int,
                i < self.x,
                j <= y,
                row@.len() == 2 * j as int,
                forall|l: int| 0 <= l < 2 * j as int ==> #[trigger] row@[l] == self@[i as int][l / 2],
            decreases y - j,
        {
            let c = self.get(i, j);
            row.push(c);
            row.push(c);
            j = j + 1;
        }
        row
    }

    /// Doubles the grid in place: the new grid is `2x` by `2y`, and each
    /// source cell is replicated into the 2-by-2 block at twice its
    /// coordinates. The old content is discarded wholesale.
    pub fn grow(&mut self)
        requires
            old(self).wf(),
            old(self).x <= 0x7fff_ffff,
            old(self).y <= 0x7fff_ffff,
        ensures
            final(self).wf(),
            final(self).x == 2 * old(self).x,
            final(self).y == 2 * old(self).y,
            forall|i: int, j: int|
                0 <= i < final(self).x && 0 <= j < final(self).y ==> #[trigger] final(self)@[i][j]
                    == old(self)@[i / 2][j / 2],
    {
        let x = self.x as usize;
        let y = self.y as usize;
        let ghost g0 = self@;
        let mut rows: Vec<Vec<Cell>> = Vec::new();
        let mut i: usize = 0;
        while i < x
            invariant
                self.wf(),
                self@ == g0,
                x == self.x as int,
                y == self.y as int,
                i <= x,
                rows@.len() == 2 * i as int,
                forall|k: int| 0 <= k < 2 * i as int ==> (#[trigger] rows@[k])@.len() == 2 * y as int,
                forall|k: int, j: int|
                    0 <= k < 2 * i as int && 0 <= j < 2 * y as int ==> #[trigger] rows@[k]@[j]
                        == g0[k / 2][j / 2],
            decreases x - i,
        {
            let upper = self.doubled_row(i);
            let lower = self.doubled_row(i);
            rows.push(upper);
            rows.push(lower);
            i = i + 1;
        }
        self.x = self.x * 2;
        self.y = self.y * 2;
        self.world = rows;
    }

    /// Sets every cell strictly inside `[1, x) x [1, y)` at random: alive
    /// with probability `dist` in 100, else dead. Row 0 and column 0 are
    /// left exactly as they were.
    pub fn rand(&mut self, dist: u32)
        requires
            old(self).wf(),
        ensures
            final(self).wf(),
            final(self).x == old(self).x,
            final(self).y == old(self).y,
            forall|i: int, j: int|
                0 <= i < old(self).x && 0 <= j < old(self).y && (i == 0 || j == 0)
                    ==> #[trigger] final(self)@[i][j] == old(self)@[i][j],
            forall|i: int, j: int|
                1 <= i < old(self).x && 1 <= j < old(self).y ==> rand_ok(
                    dist,
                    #[trigger] final(self)@[i][j],
                ),
    {
        let x = self.x as usize;
        let y = self.y as usize;
        let ghost g0 = self@;
        let mut i: usize = 1;
        while i < x
            invariant
                self.wf(),
                x == self.x as int,
                y == self.y as int,
                self@.len() == g0.len(),
                g0.len() == x,
                1 <= i,
                i <= x || i == 1,
                forall|k: int, l: int|
                    0 <= k < x && 0 <= l < y && (k == 0 || l == 0) ==> #[trigger] self@[k][l]
                        == g0[k][l],
                forall|k: int, l: int|
                    i as int <= k < x && 0 <= l < y ==> #[trigger] self@[k][l] == g0[k][l],
                forall|k: int, l: int|
                    1 <= k < i as int && 1 <= l < y ==> rand_ok(dist, #[trigger] self@[k][l]),
            decreases x - i,
        {
            let mut j: usize = 1;
            while j < y
                invariant
                    self.wf(),
                    x == self.x as int,
                    y == self.y as int,
                    self@.len() == g0.len(),
                    g0.len() == x,
                    1 <= i < x,
                    1 <= j,
                    j <= y || j == 1,
                    forall|k: int, l: int|
                        0 <= k < x && 0 <= l < y && (k == 0 || l == 0) ==> #[trigger] self@[k][l]
                            == g0[k][l],
                    forall|k: int, l: int|
                        (i as int) < k && k < x && 0 <= l < y ==> #[trigger] self@[k][l]
                            == g0[k][l],
                    forall|l: int| j as int <= l < y ==> #[trigger] self@[i as int][l] == g0[i as int][l],
                    forall|k: int, l: int|
                        1 <= k < i as int && 1 <= l < y ==> rand_ok(dist, #[trigger] self@[k][l]),
                    forall|l: int|
                        1 <= l < j as int && l < y ==> rand_ok(dist, #[trigger] self@[i as int][l]),
                decreases y - j,
            {
                let r = random_percent();
                let c = if r < dist {
                    Cell::Alive
                } else {
                    Cell::Dead
                };
                self.set(i, j, c);
                j = j + 1;
            }
            i = i + 1;
        }
    }

    /// A snapshot of the rows in ascending row order; reading it leaves the
    /// grid untouched, and each call starts afresh from the current state.
    pub fn rows(&self) -> (r: Vec<Vec<Cell>>)
        requires
            self.wf(),
        ensures
            r@.len() == self@.len(),
            forall|i: int| 0 <= i < r@.len() ==> (#[trigger] r@[i])@ == self@[i],
    {
        let mut rows: Vec<Vec<Cell>> = Vec::new();
        let mut i: usize = 0;
        let x = self.x as usize;
        let y = self.y as usize;
        while i < x
            invariant
                self.wf(),
                x == self.x as int,
                y == self.y as int,
                i <= x,
                rows@.len() == i as int,
                forall|k: int| 0 <= k < i as int ==> (#[trigger] rows@[k])@ == self@[k],
            decreases x - i,
        {
            let mut row: Vec<Cell> = Vec::new();
            let mut j: usize = 0;
            while j < y
                invariant
                    self.wf(),
                    x == self.x as int,
                    y == self.y as int,
                    i < x,
                    j <= y,
                    row@.len() == j as int,
                    forall|l: int| 0 <= l < j as int ==> #[trigger] row@[l] == self@[i as int][l],
                decreases y - j,
            {
                assert(self.world@[i as int]@ == self@[i as int]);
                row.push(self.world[i][j]);
                j = j + 1;
            }
            assert(row@ =~= self@[i as int]);
            rows.push(row);
            i = i + 1;
        }
        rows
    }
}

/// Stepping is deterministic: it is a pure function of the grid contents
/// and the rule set, so two equal grids step to equal grids. Neither
/// randomness nor any other hidden state enters the next generation.
pub proof fn lemma_step_deterministic(g1: Seq<Seq<Cell>>, g2: Seq<Seq<Cell>>, rs: Ruleset)
    requires
        g1 == g2,
    ensures
        step_grid(g1, rs) == step_grid(g2, rs),
{
}

/// Inverting a grid twice gives back the original grid: every cell is
/// swapped to its opposite and back.
pub proof fn lemma_invert_involution(g: Seq<Seq<Cell>>)
    ensures
        grid_invert(grid_invert(g)) == g,
{
    let gg = grid_invert(grid_invert(g));
    assert forall|i: int| 0 <= i < g.len() implies #[trigger] gg[i] =~= g[i] by {
        assert forall|j: int| 0 <= j < g[i].len() implies #[trigger] gg[i][j] == g[i][j] by {
            assert(spec_swap(spec_swap(g[i][j])) == g[i][j]);
        }
    }
    assert(gg =~~= g);
}

/// Under a name that denotes no known rule set, one step yields an
/// all-dead grid, whatever the cells held before.
pub proof fn lemma_unknown_rule_all_dead(g: Seq<Seq<Cell>>, name: Seq<char>)
    requires
        ruleset_of(name) == Ruleset::Unknown,
    ensures
        forall|i: int, j: int|
            0 <= i < g.len() && 0 <= j < g[i].len() ==> #[trigger] step_grid(
                g,
                ruleset_of(name),
            )[i][j] == Cell::Dead,
{
}

} // verus!
