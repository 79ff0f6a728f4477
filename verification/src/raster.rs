use vstd::prelude::*;
use crate::color::Color;
use crate::geometry::Vec2;

verus! {

/// A grid of colours, `width` cells wide and `height` cells high, with every
/// cell filled. The cells are kept row by row, the top row first.
#[derive(Debug, PartialEq, Eq)]
pub struct RasterBuffer {
    width: u32,
    height: u32,
    cells: Vec<Color>,
}

/// Where the cell in column `x` of row `y` stands in a grid `width` wide that
/// is kept row by row.
pub open spec fn cell_index(width: u32, x: int, y: int) -> int {
    y * width + x
}

/// Every cell of a grid has a place of its own among the `width * height`
/// places of the sequence that holds it.
pub proof fn lemma_cell_index_in_range(width: u32, height: u32, x: int, y: int)
    requires
        0 <= x < width,
        0 <= y < height,
    ensures
        0 <= cell_index(width, x, y) < width * height,
{
    assert(y * width + width <= height * width) by (nonlinear_arith)
        requires
            0 <= y < height,
            0 <= width,
    ;
    assert(0 <= y * width) by (nonlinear_arith)
        requires
            0 <= y,
            0 <= width,
    ;
}

impl RasterBuffer {
    #[verifier::type_invariant]
    spec fn filled(self) -> bool {
        self.cells@.len() == self.width * self.height
    }

    /// The width and the height of the grid.
    pub closed spec fn dim(self) -> Vec2<u32> {
        Vec2 { x: self.width, y: self.height }
    }

    /// The colours of the grid, row by row.
    pub closed spec fn cells(self) -> Seq<Color> {
        self.cells@
    }

    /// The colour of the cell in column `x` of row `y`.
    pub open spec fn at(self, x: int, y: int) -> Color {
        self.cells()[cell_index(self.dim().x, x, y)]
    }

    /// The grid of the given size that holds `cells`, row by row.
    pub(crate) fn from_cells(dim: Vec2<u32>, cells: Vec<Color>) -> (r: RasterBuffer)
        requires
            cells@.len() == dim.x * dim.y,
        ensures
            r.dim() == dim,
            r.cells() == cells@,
    {
        RasterBuffer { width: dim.x, height: dim.y, cells }
    }

    /// The number of columns.
    pub fn width(&self) -> (w: u32)
        ensures
            w == self.dim().x,
    {
        self.width
    }

    /// The number of rows.
    pub fn height(&self) -> (h: u32)
        ensures
            h == self.dim().y,
    {
        self.height
    }

    /// All the colours, row by row: one for each cell.
    pub fn pixels(&self) -> (p: &Vec<Color>)
        ensures
            p@ == self.cells(),
            p@.len() == self.dim().x * self.dim().y,
    {
        proof {
            use_type_invariant(self);
        }
        &self.cells
    }

    /// The colour of the cell in column `x` of row `y`, or `None` where the
    /// grid has no such cell.
    pub fn get_pixel(&self, x: u32, y: u32) -> (c: Option<Color>)
        ensures
            c == if x < self.dim().x && y < self.dim().y {
                Some(self.at(x as int, y as int))
            } else {
                None
            },
    {
        proof {
            use_type_invariant(self);
        }
        if x < self.width && y < self.height {
            let n: usize = self.cells.len();
            proof {
                lemma_cell_index_in_range(self.width, self.height, x as int, y as int);
                assert(0 <= y * self.width <= cell_index(self.width, x as int, y as int) < n);
            }
            let i: usize = y as usize * self.width as usize + x as usize;
            Some(self.cells[i])
        } else {
            None
        }
    }
}

} // verus!
