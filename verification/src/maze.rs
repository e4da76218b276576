//! The grid of cell states and its projection to pixels.
//!
//! A maze holds `width` rows of `height` cells each. It is modelled as a
//! sequence of rows, each row a sequence of cell states. Its pixel buffer
//! lists the rows one after another, so the cell at position `y` of row `x`
//! is pixel `x * height + y`.

use crate::color::{from_u8_rgb, rgb};
use vstd::arithmetic::div_mod::lemma_fundamental_div_mod_converse;
use vstd::prelude::*;

verus! {

/// The row that a new maze blocks.
pub const BLOCKED_ROW: usize = 50;

/// What one cell of the maze holds.
#[derive(Clone, Copy, Debug, PartialEq, Eq, Structural)]
pub enum CellStatus {
    Start,
    End,
    Block,
    Free,
    Discovered,
}

impl CellStatus {
    /// The color that stands for this state: blue for the start, green for
    /// the end, black for a block, white for a free cell, red for a
    /// discovered one.
    pub open spec fn color(self) -> u32 {
        match self {
            CellStatus::Start => 0x0000FF,
            CellStatus::End => 0x00FF00,
            CellStatus::Block => 0x000000,
            CellStatus::Free => 0xFFFFFF,
            CellStatus::Discovered => 0xFF0000,
        }
    }

    /// The red, green and blue channels of this state's color.
    pub open spec fn channels(self) -> (u8, u8, u8) {
        match self {
            CellStatus::Start => (0, 0, 255),
            CellStatus::End => (0, 255, 0),
            CellStatus::Block => (0, 0, 0),
            CellStatus::Free => (255, 255, 255),
            CellStatus::Discovered => (255, 0, 0),
        }
    }

    /// Each color is its three channels packed.
    pub proof fn lemma_color_is_packed(self)
        ensures
            self.color() == rgb(self.channels().0, self.channels().1, self.channels().2),
    {
    }

    /// Computes the color of this state.
    pub fn get_color(&self) -> (color: u32)
        ensures
            color == self.color(),
    {
        match self {
            CellStatus::Block => from_u8_rgb(0, 0, 0),
            CellStatus::Discovered => from_u8_rgb(255, 0, 0),
            CellStatus::End => from_u8_rgb(0, 255, 0),
            CellStatus::Free => from_u8_rgb(255, 255, 255),
            CellStatus::Start => from_u8_rgb(0, 0, 255),
        }
    }
}

/// Whether all rows of a grid have the same length.
pub open spec fn rectangular(grid: Seq<Seq<CellStatus>>) -> bool {
    forall|x: int| 0 <= x < grid.len() ==> (#[trigger] grid[x]).len() == row_len(grid)
}

/// The length of a grid's rows; zero for a grid without rows.
pub open spec fn row_len(grid: Seq<Seq<CellStatus>>) -> nat {
    if grid.len() == 0 {
        0
    } else {
        grid[0].len()
    }
}

/// The pixels of a rectangular grid: one color per cell, the rows one after
/// another, each in the order of its cells.
pub open spec fn pixels(grid: Seq<Seq<CellStatus>>) -> Seq<u32> {
    Seq::new(
        grid.len() * row_len(grid),
        |k: int| grid[k / row_len(grid) as int][k % row_len(grid) as int].color(),
    )
}

/// The grid of a new maze: `width` rows of `height` cells, all of them free
/// but those of the blocked row.
pub open spec fn fresh_grid(width: nat, height: nat) -> Seq<Seq<CellStatus>> {
    Seq::new(
        width,
        |x: int|
            Seq::new(
                height,
                |y: int|
                    if x == BLOCKED_ROW {
                        CellStatus::Block
                    } else {
                        CellStatus::Free
                    },
            ),
    )
}

/// A maze: a rectangular grid of cell states with more rows than the index
/// of the blocked row. Its dimensions never change.
pub struct Maze {
    grid: Vec<Vec<CellStatus>>,
}

impl View for Maze {
    type V = Seq<Seq<CellStatus>>;

    closed spec fn view(&self) -> Seq<Seq<CellStatus>> {
        Seq::new(self.grid@.len(), |x: int| self.grid@[x]@)
    }
}

impl Maze {
    /// What holds of every maze.
    #[verifier::type_invariant]
    pub open spec fn wf(&self) -> bool {
        self@.len() > BLOCKED_ROW && rectangular(self@)
    }

    /// The number of rows.
    pub open spec fn width(&self) -> nat {
        self@.len()
    }

    /// The number of cells in each row.
    pub open spec fn height(&self) -> nat {
        row_len(self@)
    }

    /// Builds a maze of `width` rows of `height` cells each, with the
    /// blocked row filled with blocks and every other cell free. The
    /// blocked row has to exist, so `width` must be greater than its index.
    pub fn new(width: usize, height: usize) -> (maze: Self)
        requires
            width > BLOCKED_ROW,
        ensures
            maze.wf(),
            maze.width() == width,
            maze.height() == height,
            maze@ == fresh_grid(width as nat, height as nat),
    {
        let mut pre_grid = vec![vec![CellStatus::Free; height]; width];
        pre_grid[BLOCKED_ROW] = vec![CellStatus::Block; height];
        let maze = Maze { grid: pre_grid };
        assert(maze@ =~~= fresh_grid(width as nat, height as nat));
        maze
    }

    /// The color of every cell, in the order of `pixels`. The maze is left
    /// as it was.
    pub fn get_pixel_buffer(&self) -> (out: Vec<u32>)
        ensures
            out@.len() == self.width() * self.height(),
            out@ == pixels(self@),
    {
        proof {
            use_type_invariant(self);
        }
        let ghost height: int = row_len(self@) as int;
        let mut out: Vec<u32> = Vec::new();
        let mut x: usize = 0;
        while x < self.grid.len()
            invariant
                self.wf(),
                height == row_len(self@),
                x <= self.grid.len(),
                out@.len() == x * height,
                forall|k: int| 0 <= k < out@.len() ==> out@[k] == pixels(self@)[k],
            decreases self.grid.len() - x,
        {
            let row = &self.grid[x];
            let mut y: usize = 0;
            while y < row.len()
                invariant
                    self.wf(),
                    height == row_len(self@),
                    x < self.grid.len(),
                    row@ == self@[x as int],
                    y <= row.len(),
                    out@.len() == x * height + y,
                    forall|k: int| 0 <= k < out@.len() ==> out@[k] == pixels(self@)[k],
                decreases row.len() - y,
            {
                proof {
                    lemma_cell_index(self@, x as int, y as int);
                }
                out.push(row[y].get_color());
                y += 1;
            }
            assert((x + 1) * height == x * height + height) by (nonlinear_arith);
            x += 1;
        }
        out
    }
}

/// Pixel `x * height + y` of a rectangular grid is the color of the cell at
/// position `y` of row `x`.
pub proof fn lemma_cell_index(grid: Seq<Seq<CellStatus>>, x: int, y: int)
    requires
        rectangular(grid),
        0 <= x < grid.len(),
        0 <= y < row_len(grid),
    ensures
        0 <= x * row_len(grid) + y < pixels(grid).len(),
        pixels(grid)[x * row_len(grid) + y] == grid[x][y].color(),
{
    let height: int = row_len(grid) as int;
    let k: int = x * height + y;
    lemma_fundamental_div_mod_converse(k, height, x, y);
    assert(0 <= k < grid.len() * height) by (nonlinear_arith)
        requires
            k == x * height + y,
            0 <= x < grid.len(),
            0 <= y < height,
    ;
}

/// A grid has one pixel per cell.
pub proof fn lemma_pixel_count(grid: Seq<Seq<CellStatus>>)
    ensures
        pixels(grid).len() == grid.len() * row_len(grid),
{
}

/// The grid of a new maze has the dimensions that were asked for, and all
/// its rows are equally long.
pub proof fn lemma_fresh_grid_shape(width: nat, height: nat)
    ensures
        fresh_grid(width, height).len() == width,
        width > 0 ==> row_len(fresh_grid(width, height)) == height,
        rectangular(fresh_grid(width, height)),
{
}

/// The pixel buffer of a new maze has `width * height` entries.
pub proof fn lemma_fresh_pixel_count(width: nat, height: nat)
    requires
        width > BLOCKED_ROW,
    ensures
        pixels(fresh_grid(width, height)).len() == width * height,
{
    lemma_fresh_grid_shape(width, height);
}

/// In a new maze every cell of the blocked row is a block and shows black,
/// and every other cell is free and shows white, in the grid and at the
/// cell's place in the pixel buffer.
pub proof fn lemma_fresh_pixel_colors(width: nat, height: nat, x: nat, y: nat)
    requires
        width > BLOCKED_ROW,
        x < width,
        y < height,
    ensures
        x == BLOCKED_ROW ==> fresh_grid(width, height)[x as int][y as int] == CellStatus::Block,
        x != BLOCKED_ROW ==> fresh_grid(width, height)[x as int][y as int] == CellStatus::Free,
        x * height + y < pixels(fresh_grid(width, height)).len(),
        pixels(fresh_grid(width, height))[(x * height + y) as int] == if x == BLOCKED_ROW {
            0x000000u32
        } else {
            0xFFFFFFu32
        },
{
    lemma_fresh_grid_shape(width, height);
    lemma_cell_index(fresh_grid(width, height), x as int, y as int);
}

/// Taking the pixel buffer of one maze twice gives the same pixels.
pub proof fn lemma_pixel_buffer_repeatable(maze: Maze, first: Vec<u32>, second: Vec<u32>)
    requires
        first@ == pixels(maze@),
        second@ == pixels(maze@),
    ensures
        first@ == second@,
{
}

} // verus!
