//! The capability a grid needs to run the game, and a dense fixed-size grid
//! that provides it.
use vstd::prelude::*;

use crate::board::Board;

verus! {

/// What a grid has to offer for the game to run on it. Implementors supply the
/// bounded reads and writes; neighbor counting and stepping come with the trait.
pub trait Life: Sized {
    /// The grid's contents as a mathematical board.
    spec fn board(&self) -> Board;

    /// Every grid's board is well formed.
    proof fn lemma_board_wf(&self)
        ensures
            self.board().wf(),
    ;

    /// Sets the state of the cell at `(x, y)`; a coordinate outside the grid is ignored.
    fn set_cell(&mut self, x: usize, y: usize, is_alive: bool)
        ensures
            final(self).board() == old(self).board().set(x as int, y as int, is_alive),
            !old(self).board().in_range(x as int, y as int) ==> final(self).board() == old(
                self,
            ).board(),
    ;

    /// The number of columns.
    fn width(&self) -> (r: usize)
        ensures
            r == self.board().width,
    ;

    /// The number of rows.
    fn height(&self) -> (r: usize)
        ensures
            r == self.board().height,
    ;

    /// The state of the cell at `(x, y)`; false outside the grid.
    fn is_alive(&self, x: usize, y: usize) -> (r: bool)
        ensures
            r == self.board().alive(x as int, y as int),
            x >= self.board().width || y >= self.board().height ==> !r,
    ;

    /// The number of live cells around `(x, y)`, not counting the cell itself nor
    /// any position outside the grid.
    fn number_of_neighbors(&self, x: usize, y: usize) -> (r: usize)
        ensures
            r == self.board().live_neighbors(x as int, y as int),
            r <= 8,
    {
        proof {
            self.lemma_board_wf();
        }
        let ghost b = self.board();
        // A neighbor whose coordinate would leave 0..=usize::MAX is off the grid,
        // hence dead, and is not read.
        let xl = x > 0;
        let xh = x < usize::MAX;
        let yl = y > 0;
        let yh = y < usize::MAX;
        let nw = if xl && yl { self.is_alive(x - 1, y - 1) as usize } else { 0 };
        let n = if yl { self.is_alive(x, y - 1) as usize } else { 0 };
        let ne = if xh && yl { self.is_alive(x + 1, y - 1) as usize } else { 0 };
        let w = if xl { self.is_alive(x - 1, y) as usize } else { 0 };
        let e = if xh { self.is_alive(x + 1, y) as usize } else { 0 };
        let sw = if xl && yh { self.is_alive(x - 1, y + 1) as usize } else { 0 };
        let s = if yh { self.is_alive(x, y + 1) as usize } else { 0 };
        let se = if xh && yh { self.is_alive(x + 1, y + 1) as usize } else { 0 };
        assert(nw == b.count(x - 1, y - 1));
        assert(n == b.count(x as int, y - 1));
        assert(ne == b.count(x + 1, y - 1));
        assert(w == b.count(x - 1, y as int));
        assert(e == b.count(x + 1, y as int));
        assert(sw == b.count(x - 1, y + 1));
        assert(s == b.count(x as int, y + 1));
        assert(se == b.count(x + 1, y + 1));
        nw + n + ne + w + e + sw + s + se
    }

    /// Writes the next generation of this grid into `other`: each cell of `other`
    /// that lies within this grid's range gets the state the rule gives it, and
    /// the rest of `other` is left as it was. With equal dimensions `other`
    /// becomes exactly the next generation.
    fn next_generation(&self, other: &mut Self)
        ensures
            final(other).board() == self.board().next_onto(old(other).board()),
            old(other).board().width == self.board().width && old(other).board().height
                == self.board().height ==> final(other).board() == self.board().next(),
    {
        proof {
            self.lemma_board_wf();
            other.lemma_board_wf();
        }
        let ghost cur = self.board();
        let ghost start = other.board();
        let w = self.width();
        let h = self.height();
        let mut x: usize = 0;
        while x < w
            invariant
                cur == self.board(),
                start.wf(),
                w == cur.width,
                h == cur.height,
                x <= w,
                other.board().width == start.width,
                other.board().height == start.height,
                forall|p: (int, int)| #[trigger]
                    other.board().live.contains(p) == if cur.in_range(p.0, p.1) && p.0 < x {
                        start.in_range(p.0, p.1) && cur.next_alive(p.0, p.1)
                    } else {
                        start.live.contains(p)
                    },
            decreases w - x,
        {
            let mut y: usize = 0;
            while y < h
                invariant
                    cur == self.board(),
                    start.wf(),
                    w == cur.width,
                    h == cur.height,
                    x < w,
                    y <= h,
                    other.board().width == start.width,
                    other.board().height == start.height,
                    forall|p: (int, int)| #[trigger]
                        other.board().live.contains(p) == if cur.in_range(p.0, p.1) && (p.0 < x
                            || (p.0 == x && p.1 < y)) {
                            start.in_range(p.0, p.1) && cur.next_alive(p.0, p.1)
                        } else {
                            start.live.contains(p)
                        },
                decreases h - y,
            {
                let n = self.number_of_neighbors(x, y);
                if n == 3 {
                    other.set_cell(x, y, true);
                } else if n == 2 {
                    let a = self.is_alive(x, y);
                    other.set_cell(x, y, a);
                } else {
                    other.set_cell(x, y, false);
                }
                y = y + 1;
            }
            x = x + 1;
        }
        proof {
            assert(other.board().live =~= cur.next_onto(start).live);
            if start.width == cur.width && start.height == cur.height {
                crate::board::lemma_next_onto_same_size(cur, start);
            }
        }
    }
}

/// A dense grid of `W` columns and `H` rows, stored row by row.
pub struct LifeGrid<const W: usize, const H: usize> {
    data: [[bool; W]; H],
}

impl<const W: usize, const H: usize> LifeGrid<W, H> {
    /// A grid on which every cell is dead.
    pub fn new() -> (r: Self)
        ensures
            r.board() == Board::empty(W as nat, H as nat),
    {
        let r = LifeGrid { data: [[false; W]; H] };
        assert(r.board().live =~= Set::empty());
        r
    }

    /// The cell states row by row: row `y` is `r[y]`, and its cell `x` is `r[y][x]`.
    pub fn rows(&self) -> (r: &[[bool; W]; H])
        ensures
            self.board() == board_of_rows(*r),
            forall|x: int, y: int|
                #![trigger r[y][x]]
                0 <= x < W && 0 <= y < H ==> r[y][x] == self.board().alive(x, y),
    {
        &self.data
    }
}

/// The board that an array of rows describes: `W` columns, `H` rows, and
/// `rows[y][x]` the state of cell `(x, y)`.
pub open spec fn board_of_rows<const W: usize, const H: usize>(rows: [[bool; W]; H]) -> Board {
    Board {
        width: W as nat,
        height: H as nat,
        live: Set::new(|p: (int, int)| 0 <= p.0 < W && 0 <= p.1 < H && rows[p.1][p.0]),
    }
}

/// A `LifeGrid<W, H>` is `W` cells wide and `H` cells high.
pub broadcast proof fn lemma_grid_dimensions<const W: usize, const H: usize>(g: &LifeGrid<W, H>)
    ensures
        #[trigger] g.board().width == W as nat,
        g.board().height == H as nat,
{
}

/// Reading a grid through `*` sees its rows, as [`LifeGrid::rows`] does.
impl<const W: usize, const H: usize> core::ops::Deref for LifeGrid<W, H> {
    type Target = [[bool; W]; H];

    fn deref(&self) -> (r: &[[bool; W]; H])
        ensures
            self.board() == board_of_rows(*r),
    {
        &self.data
    }
}

/// Writing through `*` edits the rows in place: whatever the rows hold when the
/// borrow ends is the grid's new contents.
impl<const W: usize, const H: usize> core::ops::DerefMut for LifeGrid<W, H> {
    fn deref_mut(&mut self) -> (r: &mut [[bool; W]; H])
        ensures
            old(self).board() == board_of_rows(*r),
            final(self).board() == board_of_rows(*final(r)),
    {
        &mut self.data
    }
}

impl<const W: usize, const H: usize> Default for LifeGrid<W, H> {
    fn default() -> (r: Self)
        ensures
            r.board() == Board::empty(W as nat, H as nat),
    {
        Self::new()
    }
}

impl<const W: usize, const H: usize> Life for LifeGrid<W, H> {
    closed spec fn board(&self) -> Board {
        board_of_rows(self.data)
    }

    proof fn lemma_board_wf(&self) {
    }

    fn set_cell(&mut self, x: usize, y: usize, is_alive: bool) {
        if x < W && y < H {
            let mut row = self.data[y];
            row[x] = is_alive;
            self.data[y] = row;
            assert(self.board().live =~= old(self).board().set(x as int, y as int, is_alive).live);
        }
    }

    fn is_alive(&self, x: usize, y: usize) -> (r: bool) {
        if x < W && y < H {
            self.data[y][x]
        } else {
            false
        }
    }

    fn width(&self) -> (r: usize) {
        W
    }

    fn height(&self) -> (r: usize) {
        H
    }
}

} // verus!
