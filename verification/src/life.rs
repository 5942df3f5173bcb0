//! The boot screen's animation: Conway's game of life on a board whose edges wrap around.
use vstd::prelude::*;

verus! {

/// A board of cells, `height` rows of `width` cells, and the number of steps taken.
#[derive(Debug)]
pub struct GameOfLife {
    pub cells: Vec<Vec<bool>>,
    pub width: usize,
    pub height: usize,
    pub ticks: u64,
}

/// The rows of a board.
pub open spec fn grid(cells: Seq<Vec<bool>>) -> Seq<Seq<bool>> {
    cells.map_values(|r: Vec<bool>| r@)
}

/// The row or column before `i` on a ring of `n`.
pub open spec fn before(i: int, n: int) -> int {
    if i == 0 { n - 1 } else { i - 1 }
}

/// The row or column after `i` on a ring of `n`.
pub open spec fn after(i: int, n: int) -> int {
    if i + 1 == n { 0 } else { i + 1 }
}

/// 1 for a live cell, 0 for a dead one.
pub open spec fn alive_count(c: Seq<Seq<bool>>, y: int, x: int) -> int {
    if c[y][x] { 1 } else { 0 }
}

/// The number of live cells among the eight around `(y, x)`, the board wrapping
/// around at its edges.
pub open spec fn live_neighbors(c: Seq<Seq<bool>>, w: int, h: int, y: int, x: int) -> int {
    let (yu, yd, xl, xr) = (before(y, h), after(y, h), before(x, w), after(x, w));
    alive_count(c, yu, xl) + alive_count(c, yu, x) + alive_count(c, yu, xr) + alive_count(c, y, xl)
        + alive_count(c, y, xr) + alive_count(c, yd, xl) + alive_count(c, yd, x) + alive_count(c, yd, xr)
}

/// Whether cell `(y, x)` lives after one step: a live cell survives with two or
/// three live neighbours, a dead one comes alive with exactly three.
pub open spec fn next_alive(c: Seq<Seq<bool>>, w: int, h: int, y: int, x: int) -> bool {
    let n = live_neighbors(c, w, h, y, x);
    if c[y][x] { n == 2 || n == 3 } else { n == 3 }
}

/// Draws `true` with probability `numerator / denominator`
/// (`rand::random_ratio`).
#[verifier::external_body]
fn random_ratio(numerator: u32, denominator: u32) -> (r: bool)
    requires
        0 < denominator,
        numerator <= denominator,
    ensures
        numerator == 0 ==> !r,
        numerator == denominator ==> r,
{
    rand::random_ratio(numerator, denominator)
}

/// A row of `width` cells, each alive with probability 1/5.
fn random_row(width: usize) -> (r: Vec<bool>)
    ensures
        r@.len() == width,
{
    let mut row: Vec<bool> = Vec::new();
    let mut x: usize = 0;
    while x < width
        invariant
            x <= width,
            row@.len() == x,
        decreases width - x,
    {
        row.push(random_ratio(1, 5));
        x = x + 1;
    }
    row
}

impl Default for GameOfLife {
    fn default() -> (r: Self)
        ensures
            r.cells@.len() == 0,
            r.width == 0,
            r.height == 0,
            r.ticks == 0,
    {
        GameOfLife { cells: Vec::new(), width: 0, height: 0, ticks: 0 }
    }
}

impl GameOfLife {
    /// The board has `height` rows of `width` cells.
    pub open spec fn wf(&self) -> bool {
        &&& self.cells@.len() == self.height
        &&& forall|y: int| 0 <= y < self.height ==> (#[trigger] self.cells@[y])@.len() == self.width
    }

    /// Gives the board new dimensions, filled at random; a board that already
    /// has them is left as it is.
    pub fn resize(&mut self, width: usize, height: usize)
        ensures
            old(self).width != width || old(self).height != height || old(self).wf() ==> final(self).wf(),
            final(self).width == width,
            final(self).height == height,
            final(self).ticks == old(self).ticks,
            old(self).width == width && old(self).height == height ==> final(self).cells == old(self).cells,
    {
        if width == self.width && height == self.height {
            return;
        }
        let mut cells: Vec<Vec<bool>> = Vec::new();
        let mut y: usize = 0;
        while y < height
            invariant
                y <= height,
                cells@.len() == y,
                forall|k: int| 0 <= k < y ==> (#[trigger] cells@[k])@.len() == width,
            decreases height - y,
        {
            cells.push(random_row(width));
            y = y + 1;
        }
        self.cells = cells;
        self.width = width;
        self.height = height;
    }

    /// Fills the board anew at random and sets the step count back to zero.
    pub fn reset(&mut self)
        requires
            old(self).wf(),
        ensures
            final(self).wf(),
            final(self).width == old(self).width,
            final(self).height == old(self).height,
            final(self).ticks == 0,
    {
        let width = self.width;
        let height = self.height;
        if width > 0 && height > 0 {
            let mut y: usize = 0;
            while y < height
                invariant
                    y <= height,
                    width == self.width,
                    height == self.height,
                    self.wf(),
                decreases height - y,
            {
                let row = random_row(width);
                self.cells.set(y, row);
                y = y + 1;
            }
        }
        self.ticks = 0;
    }

    /// The number of live cells around `(y, x)`.
    fn neighbors(&self, y: usize, x: usize) -> (n: u8)
        requires
            self.wf(),
            y < self.height,
            x < self.width,
        ensures
            n == live_neighbors(grid(self.cells@), self.width as int, self.height as int, y as int, x as int),
    {
        let h = self.height;
        let w = self.width;
        let yu = if y == 0 { h - 1 } else { y - 1 };
        let yd = if y + 1 == h { 0 } else { y + 1 };
        let xl = if x == 0 { w - 1 } else { x - 1 };
        let xr = if x + 1 == w { 0 } else { x + 1 };
        let ghost c = grid(self.cells@);
        assert(c[yu as int] == self.cells@[yu as int]@);
        assert(c[y as int] == self.cells@[y as int]@);
        assert(c[yd as int] == self.cells@[yd as int]@);
        let mut n: u8 = 0;
        if self.cells[yu][xl] {
            n = n + 1;
        }
        if self.cells[yu][x] {
            n = n + 1;
        }
        if self.cells[yu][xr] {
            n = n + 1;
        }
        if self.cells[y][xl] {
            n = n + 1;
        }
        if self.cells[y][xr] {
            n = n + 1;
        }
        if self.cells[yd][xl] {
            n = n + 1;
        }
        if self.cells[yd][x] {
            n = n + 1;
        }
        if self.cells[yd][xr] {
            n = n + 1;
        }
        n
    }

    /// One step of the game: every cell takes its next state at once (see
    /// [`next_alive`]); an empty board only counts the step.
    pub fn tick(&mut self)
        requires
            old(self).wf(),
            old(self).ticks < u64::MAX,
        ensures
            final(self).wf(),
            final(self).ticks == old(self).ticks + 1,
            final(self).width == old(self).width,
            final(self).height == old(self).height,
            old(self).width == 0 || old(self).height == 0 ==> final(self).cells == old(self).cells,
            forall|y: int, x: int|
                0 <= y < old(self).height && 0 <= x < old(self).width ==> #[trigger] grid(final(self).cells@)[y][x]
                    == next_alive(grid(old(self).cells@), old(self).width as int, old(self).height as int, y, x),
    {
        self.ticks = self.ticks + 1;
        if self.width == 0 || self.height == 0 {
            return;
        }
        let w = self.width;
        let h = self.height;
        let ghost c = grid(self.cells@);
        let mut next: Vec<Vec<bool>> = Vec::new();
        let mut y: usize = 0;
        while y < h
            invariant
                y <= h,
                w == self.width,
                h == self.height,
                self.wf(),
                c == grid(self.cells@),
                next@.len() == y,
                forall|k: int| 0 <= k < y ==> (#[trigger] next@[k])@.len() == w,
                forall|yy: int, x: int|
                    0 <= yy < y && 0 <= x < w ==> #[trigger] grid(next@)[yy][x] == next_alive(c, w as int, h as int, yy, x),
            decreases h - y,
        {
            let mut row: Vec<bool> = Vec::new();
            let mut x: usize = 0;
            while x < w
                invariant
                    x <= w,
                    y < h,
                    w == self.width,
                    h == self.height,
                    self.wf(),
                    c == grid(self.cells@),
                    row@.len() == x,
                    forall|xx: int| 0 <= xx < x ==> #[trigger] row@[xx] == next_alive(c, w as int, h as int, y as int, xx),
                decreases w - x,
            {
                let n = self.neighbors(y, x);
                let alive = self.cells[y][x];
                assert(c[y as int][x as int] == alive);
                let v = if alive && (n < 2 || n > 3) {
                    false
                } else if !alive && n == 3 {
                    true
                } else {
                    alive
                };
                row.push(v);
                x = x + 1;
            }
            let ghost before = next@;
            next.push(row);
            assert forall|yy: int, xx: int|
                0 <= yy < y + 1 && 0 <= xx < w implies #[trigger] grid(next@)[yy][xx] == next_alive(c, w as int, h as int, yy, xx) by {
                if yy < y {
                    assert(grid(next@)[yy] == grid(before)[yy]);
                }
            }
            y = y + 1;
        }
        self.cells = next;
    }
}

} // verus!
