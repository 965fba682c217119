//! The cell grid under a height field: sizes, cell numbering and the
//! discretisation of continuous positions into cells.

use vstd::prelude::*;

verus! {

/// Vertex slots owned by one cell: two triangles that share no vertex.
pub const VERTICES_PER_CELL: usize = 6;

/// Largest number of vertex slots a grid may have. Slot numbers are stored in
/// `u32` index buffers, so every slot number must fit in a `u32`.
pub const MAX_VERTICES: u64 = 0xFFFF_FFFF;

/// Cells along each side of the standard terrain.
pub const STANDARD_SIDE: u32 = 256;

/// A rectangular grid of `width` by `height` cells.
///
/// Cell `(x, y)` has number `x + y * width`. Every grid has at least one cell
/// and at most `MAX_VERTICES / 6` of them.
#[derive(Clone, Copy, Debug, PartialEq, Eq)]
pub struct Grid {
    width: u32,
    height: u32,
}

/// `v` limited to the range `lo ..= hi`.
pub open spec fn clamp(v: int, lo: int, hi: int) -> int {
    if v < lo {
        lo
    } else if v > hi {
        hi
    } else {
        v
    }
}

/// Cell numbers stay below the cell count.
pub proof fn lemma_cell_index_in_range(width: int, height: int, x: int, y: int)
    requires
        0 <= x < width,
        0 <= y < height,
    ensures
        0 <= x + y * width < width * height,
        0 <= y * width,
{
    assert(0 <= y * width) by (nonlinear_arith)
        requires
            0 <= y,
            0 <= width,
    ;
    assert(y * width + width <= height * width) by (nonlinear_arith)
        requires
            0 <= y < height,
            0 <= width,
    ;
    assert(height * width == width * height) by (nonlinear_arith);
}

/// A cell number splits back into the coordinates it was made from.
pub proof fn lemma_cell_index_inverse(width: int, x: int, y: int)
    requires
        0 <= x < width,
        0 <= y,
    ensures
        (x + y * width) % width == x,
        (x + y * width) / width == y,
{
    vstd::arithmetic::div_mod::lemma_fundamental_div_mod_converse(x + y * width, width, y, x);
}

impl Grid {
    /// Cells per row, as contracts see it.
    pub closed spec fn spec_width(&self) -> u32 {
        self.width
    }

    /// Number of rows, as contracts see it.
    pub closed spec fn spec_height(&self) -> u32 {
        self.height
    }

    /// The sizes a grid can have.
    pub open spec fn valid_size(width: int, height: int) -> bool {
        &&& 1 <= width
        &&& 1 <= height
        &&& 6 * (width * height) <= 0xFFFF_FFFF
    }

    /// Holds of every grid that exists at run time.
    #[verifier::type_invariant]
    pub open spec fn wf(self) -> bool {
        Self::valid_size(self.width() as int, self.height() as int)
    }

    /// Number of cells.
    pub open spec fn cells(self) -> int {
        self.width() * self.height()
    }

    /// Number of vertex slots: six per cell.
    pub open spec fn vertices(self) -> int {
        6 * self.cells()
    }

    /// Whether `(x, y)` names a cell of the grid.
    pub open spec fn has_cell(self, x: int, y: int) -> bool {
        0 <= x < self.width() && 0 <= y < self.height()
    }

    /// The number of cell `(x, y)`.
    pub open spec fn index_of(self, x: int, y: int) -> int {
        x + y * self.width()
    }

    /// The cell that holds the point whose coordinates round down to `(x, z)`,
    /// if the point lies on the grid.
    pub open spec fn locate_spec(self, x: int, z: int) -> Option<(u32, u32)> {
        if self.has_cell(x, z) {
            Some((x as u32, z as u32))
        } else {
            None
        }
    }

    /// The cell nearest to `(x, z)`: each coordinate is limited to the grid.
    pub open spec fn nearest_cell(self, x: int, z: int) -> (int, int) {
        (clamp(x, 0, self.width() - 1), clamp(z, 0, self.height() - 1))
    }

    /// Either side of a grid is short enough for its cell coordinates to fit
    /// in an `i32` with room for a step to either side.
    pub proof fn lemma_sides_fit(self, x: int, y: int)
        requires
            self.wf(),
            self.has_cell(x, y),
        ensures
            x < 715_827_883,
            y < 715_827_883,
    {
        let w = self.width() as int;
        let h = self.height() as int;
        assert(w <= w * h && h <= w * h) by (nonlinear_arith)
            requires
                1 <= w,
                1 <= h,
        ;
    }

    /// A grid of `width` by `height` cells, or `None` if there would be no
    /// cell or more vertex slots than `MAX_VERTICES`.
    pub fn new(width: u32, height: u32) -> (grid: Option<Grid>)
        ensures
            grid is Some <==> Self::valid_size(width as int, height as int),
            grid matches Some(g) ==> g.wf() && g.width() == width && g.height() == height,
    {
        if width == 0 || height == 0 {
            return None;
        }
        assert(width * height <= 0xFFFF_FFFF * 0xFFFF_FFFF) by (nonlinear_arith)
            requires
                0 <= width <= 0xFFFF_FFFF,
                0 <= height <= 0xFFFF_FFFF,
        ;
        let cells: u64 = (width as u64) * (height as u64);
        if cells > MAX_VERTICES / 6 {
            return None;
        }
        Some(Grid { width, height })
    }

    /// The standard terrain: 256 by 256 cells.
    pub fn standard() -> (grid: Grid)
        ensures
            grid.wf(),
            grid.width() == STANDARD_SIDE,
            grid.height() == STANDARD_SIDE,
    {
        Grid { width: STANDARD_SIDE, height: STANDARD_SIDE }
    }

    /// Cells per row.
    #[verifier::when_used_as_spec(spec_width)]
    pub fn width(&self) -> (w: u32)
        ensures
            w == self.spec_width(),
    {
        self.width
    }

    /// Number of rows.
    #[verifier::when_used_as_spec(spec_height)]
    pub fn height(&self) -> (h: u32)
        ensures
            h == self.spec_height(),
    {
        self.height
    }

    /// Number of cells.
    pub fn cell_count(&self) -> (n: usize)
        ensures
            n == self.cells(),
            1 <= n,
            6 * n <= 0xFFFF_FFFF,
    {
        proof {
            use_type_invariant(self);
            assert(1 <= self.width * self.height) by (nonlinear_arith)
                requires
                    1 <= self.width,
                    1 <= self.height,
            ;
        }
        (self.width as usize) * (self.height as usize)
    }

    /// Number of vertex slots, which is the length of every per-vertex array
    /// of a mesh over this grid.
    pub fn vertex_count(&self) -> (n: usize)
        ensures
            n == self.vertices(),
            6 <= n <= 0xFFFF_FFFF,
    {
        VERTICES_PER_CELL * self.cell_count()
    }

    /// The number of cell `(x, y)`.
    pub fn cell_index(&self, x: u32, y: u32) -> (index: usize)
        requires
            self.has_cell(x as int, y as int),
        ensures
            index == self.index_of(x as int, y as int),
            index < self.cells(),
    {
        proof {
            use_type_invariant(self);
            lemma_cell_index_in_range(self.width as int, self.height as int, x as int, y as int);
        }
        (x as usize) + (y as usize) * (self.width as usize)
    }

    /// The coordinates of the cell with number `index`.
    pub fn cell_coords(&self, index: usize) -> (cell: (u32, u32))
        requires
            index < self.cells(),
        ensures
            cell.0 == index % (self.width() as usize),
            cell.1 == index / (self.width() as usize),
            self.has_cell(cell.0 as int, cell.1 as int),
            self.index_of(cell.0 as int, cell.1 as int) == index,
    {
        proof {
            use_type_invariant(self);
            let w = self.width as int;
            let i = index as int;
            vstd::arithmetic::div_mod::lemma_fundamental_div_mod(i, w);
            vstd::arithmetic::div_mod::lemma_div_pos_is_pos(i, w);
            assert(i / w < self.height) by (nonlinear_arith)
                requires
                    i == w * (i / w) + i % w,
                    0 <= i % w,
                    i < w * self.height,
                    0 < w,
            ;
            assert((i / w) * w == w * (i / w)) by (nonlinear_arith);
        }
        let w = self.width as usize;
        ((index % w) as u32, (index / w) as u32)
    }

    /// Whether the point whose coordinates round down to `(x, z)` lies on the
    /// grid. A droplet that moves to a point that does not has left the
    /// terrain.
    pub fn contains(&self, x: i64, z: i64) -> (inside: bool)
        ensures
            inside == self.has_cell(x as int, z as int),
    {
        0 <= x && x < self.width as i64 && 0 <= z && z < self.height as i64
    }

    /// The cell that holds the point whose coordinates round down to `(x, z)`,
    /// or `None` if the point lies off the grid.
    pub fn locate(&self, x: i64, z: i64) -> (cell: Option<(u32, u32)>)
        ensures
            cell == self.locate_spec(x as int, z as int),
    {
        if self.contains(x, z) {
            Some((x as u32, z as u32))
        } else {
            None
        }
    }

    /// The cell nearest to `(x, z)`, which may lie off the grid: each
    /// coordinate is limited to the grid on its own.
    pub fn clamp_cell(&self, x: i64, z: i64) -> (cell: (u32, u32))
        ensures
            (cell.0 as int, cell.1 as int) == self.nearest_cell(x as int, z as int),
            self.has_cell(cell.0 as int, cell.1 as int),
    {
        proof {
            use_type_invariant(self);
        }
        let cx: u32 = if x < 0 {
            0
        } else if x >= self.width as i64 {
            self.width - 1
        } else {
            x as u32
        };
        let cz: u32 = if z < 0 {
            0
        } else if z >= self.height as i64 {
            self.height - 1
        } else {
            z as u32
        };
        (cx, cz)
    }
}

} // verus!
