//! The mathematical model of a grid: its dimensions and the set of live cells,
//! with the rules of the game stated over it.
use vstd::prelude::*;

verus! {

/// A grid as a mathematical value: `width` columns, `height` rows, and the
/// coordinates `(x, y)` of the cells that are alive.
pub struct Board {
    pub width: nat,
    pub height: nat,
    pub live: Set<(int, int)>,
}

impl Board {
    /// The board of the given dimensions on which every cell is dead.
    pub open spec fn empty(width: nat, height: nat) -> Board {
        Board { width, height, live: Set::empty() }
    }

    /// `(x, y)` addresses a cell of the board.
    pub open spec fn in_range(self, x: int, y: int) -> bool {
        0 <= x < self.width && 0 <= y < self.height
    }

    /// Only cells in range are alive, and both dimensions fit a `usize`.
    pub open spec fn wf(self) -> bool {
        &&& self.width <= usize::MAX
        &&& self.height <= usize::MAX
        &&& forall|p: (int, int)| #[trigger] self.live.contains(p) ==> self.in_range(p.0, p.1)
    }

    /// The state of the cell at `(x, y)`; a coordinate outside the board reads as dead.
    pub open spec fn alive(self, x: int, y: int) -> bool {
        self.in_range(x, y) && self.live.contains((x, y))
    }

    /// 1 for a live cell, 0 for a dead one or a coordinate outside the board.
    pub open spec fn count(self, x: int, y: int) -> int {
        if self.alive(x, y) {
            1
        } else {
            0
        }
    }

    /// The number of live cells among the eight at Chebyshev distance 1 from
    /// `(x, y)`. Neighbors that fall outside the board are not counted: there is
    /// no wraparound.
    pub open spec fn live_neighbors(self, x: int, y: int) -> int {
        self.count(x - 1, y - 1) + self.count(x, y - 1) + self.count(x + 1, y - 1)
            + self.count(x - 1, y) + self.count(x + 1, y)
            + self.count(x - 1, y + 1) + self.count(x, y + 1) + self.count(x + 1, y + 1)
    }

    /// The rule of the game: a cell with three live neighbors is alive in the
    /// next generation, one with two keeps its state, any other is dead.
    pub open spec fn next_alive(self, x: int, y: int) -> bool {
        let n = self.live_neighbors(x, y);
        n == 3 || (n == 2 && self.alive(x, y))
    }

    /// The next generation of the whole board.
    pub open spec fn next(self) -> Board {
        Board {
            width: self.width,
            height: self.height,
            live: Set::new(|p: (int, int)| self.in_range(p.0, p.1) && self.next_alive(p.0, p.1)),
        }
    }

    /// `target` after every cell of it that lies in this board's range has been
    /// overwritten with that cell's next state; its other cells are kept.
    pub open spec fn next_onto(self, target: Board) -> Board {
        Board {
            width: target.width,
            height: target.height,
            live: Set::new(
                |p: (int, int)|
                    if self.in_range(p.0, p.1) {
                        target.in_range(p.0, p.1) && self.next_alive(p.0, p.1)
                    } else {
                        target.live.contains(p)
                    },
            ),
        }
    }

    /// The board with the cell at `(x, y)` set to `alive`; a coordinate outside
    /// the board leaves it as it is.
    pub open spec fn set(self, x: int, y: int, alive: bool) -> Board {
        if self.in_range(x, y) {
            Board {
                live: if alive {
                    self.live.insert((x, y))
                } else {
                    self.live.remove((x, y))
                },
                ..self
            }
        } else {
            self
        }
    }
}

/// Stepping onto a target of the same dimensions gives exactly the next generation.
pub proof fn lemma_next_onto_same_size(b: Board, target: Board)
    requires
        target.wf(),
        target.width == b.width,
        target.height == b.height,
    ensures
        b.next_onto(target) == b.next(),
{
    assert(b.next_onto(target).live =~= b.next().live);
}

/// The 2x2 block whose top-left cell is `(x, y)`.
pub open spec fn block(x: int, y: int) -> Set<(int, int)> {
    set![(x, y), (x + 1, y), (x, y + 1), (x + 1, y + 1)]
}

/// Three cells in a row, centred on `(x, y)`.
pub open spec fn horizontal_bar(x: int, y: int) -> Set<(int, int)> {
    set![(x - 1, y), (x, y), (x + 1, y)]
}

/// Three cells in a column, centred on `(x, y)`.
pub open spec fn vertical_bar(x: int, y: int) -> Set<(int, int)> {
    set![(x, y - 1), (x, y), (x, y + 1)]
}

/// Nothing is born on an empty board: its next generation is empty as well.
pub proof fn lemma_empty_stays_empty(b: Board)
    requires
        b.live == Set::<(int, int)>::empty(),
    ensures
        b.next() == b,
{
    assert(b.next().live =~= b.live);
}

/// A lone live cell has no live neighbors, and after one generation the whole
/// board, that cell and its neighborhood included, is dead.
pub proof fn lemma_lone_cell_dies(b: Board, x: int, y: int)
    requires
        b.in_range(x, y),
        b.live == set![(x, y)],
    ensures
        b.live_neighbors(x, y) == 0,
        b.next().live == Set::<(int, int)>::empty(),
{
    assert(b.next().live =~= Set::<(int, int)>::empty());
}

/// A 2x2 block is a still life: each of its cells has exactly three live
/// neighbors, and the next generation is the same board.
pub proof fn lemma_block_is_still(b: Board, x: int, y: int)
    requires
        b.in_range(x, y),
        b.in_range(x + 1, y + 1),
        b.live == block(x, y),
    ensures
        b.live_neighbors(x, y) == 3,
        b.live_neighbors(x + 1, y) == 3,
        b.live_neighbors(x, y + 1) == 3,
        b.live_neighbors(x + 1, y + 1) == 3,
        b.next() == b,
{
    assert(b.next().live =~= b.live);
}

/// A horizontal bar away from the edges turns into a vertical one.
proof fn lemma_horizontal_turns(b: Board, x: int, y: int)
    requires
        b.in_range(x - 1, y - 1),
        b.in_range(x + 1, y + 1),
        b.live == horizontal_bar(x, y),
    ensures
        b.next().live == vertical_bar(x, y),
{
    assert forall|p: (int, int)| b.next().live.contains(p) == vertical_bar(x, y).contains(p) by {
        let (i, j) = p;
        if i < x - 2 || i > x + 2 || j < y - 1 || j > y + 1 {
            assert(b.live_neighbors(i, j) == 0);
        } else if j != y {
            assert(b.alive(i, j) == false);
        }
    }
    assert(b.next().live =~= vertical_bar(x, y));
}

/// A vertical bar away from the edges turns into a horizontal one.
proof fn lemma_vertical_turns(b: Board, x: int, y: int)
    requires
        b.in_range(x - 1, y - 1),
        b.in_range(x + 1, y + 1),
        b.live == vertical_bar(x, y),
    ensures
        b.next().live == horizontal_bar(x, y),
{
    assert forall|p: (int, int)| b.next().live.contains(p) == horizontal_bar(x, y).contains(p) by {
        let (i, j) = p;
        if i < x - 1 || i > x + 1 || j < y - 2 || j > y + 2 {
            assert(b.live_neighbors(i, j) == 0);
        } else if i != x {
            assert(b.alive(i, j) == false);
        }
    }
    assert(b.next().live =~= horizontal_bar(x, y));
}

/// A blinker away from the edges oscillates with period two: a horizontal bar
/// becomes a vertical one, which differs from it, and that turns back into the
/// horizontal bar.
pub proof fn lemma_blinker_oscillates(b: Board, x: int, y: int)
    requires
        b.in_range(x - 1, y - 1),
        b.in_range(x + 1, y + 1),
        b.live == horizontal_bar(x, y),
    ensures
        b.next().live == vertical_bar(x, y),
        b.next() != b,
        b.next().next() == b,
{
    lemma_horizontal_turns(b, x, y);
    lemma_vertical_turns(b.next(), x, y);
    assert(!b.next().live.contains((x - 1, y)));
    assert(b.live.contains((x - 1, y)));
}

/// Counting around the corner `(0, 0)` never wraps: only the three neighbors
/// inside the board count.
pub proof fn lemma_corner_never_wraps(b: Board)
    ensures
        b.live_neighbors(0, 0) == b.count(1, 0) + b.count(0, 1) + b.count(1, 1),
{
}

} // verus!
