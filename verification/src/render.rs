//! The interactive pixel canvas: draws the grid cell by cell as filled
//! squares (one pixel smaller than the cell when gridlines are shown) and
//! overlays gridlines at every cell boundary when they are enabled and the
//! cells are large enough to keep them legible.

use vstd::arithmetic::div_mod::{
    lemma_div_pos_is_pos, lemma_fundamental_div_mod, lemma_fundamental_div_mod_converse,
    lemma_mod_bound,
};
use vstd::prelude::*;

use crate::game::GameOfLife;
use crate::life::{cell_at, GameModel};

verus! {

/// The fill color of a live cell.
pub const ALIVE_COLOR: u32 = 0x00FFFFFF;

/// The background and the fill color of a dead cell.
pub const DEAD_COLOR: u32 = 0x000000FF;

/// The color of the gridlines.
pub const GRID_COLOR: u32 = 0x00202020;

/// Gridlines are only drawn when they are enabled and a cell spans more
/// than 4 pixels.
pub const MIN_GRID_CELL_SIZE: usize = 4;

/// Abstract view of a canvas: the grid geometry it draws for, the gridline
/// switch, and the flat pixel buffer (row-major, rows of
/// `width * cell_size` pixels).
pub ghost struct CanvasModel {
    pub width: nat,
    pub height: nat,
    pub cell_size: nat,
    pub show_grid: bool,
    pub pixels: Seq<u32>,
}

/// Pixels per buffer row.
pub open spec fn row_pixels(c: CanvasModel) -> int {
    (c.width * c.cell_size) as int
}

/// Pixel rows covered by the grid.
pub open spec fn col_pixels(c: CanvasModel) -> int {
    (c.height * c.cell_size) as int
}

/// The number of pixels the grid covers; the buffer may be larger, and the
/// pixels past this area are left as background.
pub open spec fn grid_area(c: CanvasModel) -> int {
    row_pixels(c) * col_pixels(c)
}

/// The side of the filled square drawn for a cell: one pixel is left free
/// when gridlines are enabled.
pub open spec fn fill_size(cell_size: nat, show_grid: bool) -> int {
    if show_grid {
        cell_size - 1
    } else {
        cell_size as int
    }
}

/// Whether gridlines are actually drawn.
pub open spec fn gridlines_on(cell_size: nat, show_grid: bool) -> bool {
    show_grid && cell_size > MIN_GRID_CELL_SIZE
}

/// The fill color of a cell in the given state.
pub open spec fn cell_color(alive: bool) -> u32 {
    if alive {
        ALIVE_COLOR
    } else {
        DEAD_COLOR
    }
}

/// Whether flat pixel `p` lies inside the filled square of cell `(x, y)`.
pub open spec fn in_fill_of_cell(c: CanvasModel, x: int, y: int, p: int) -> bool {
    let cs = c.cell_size as int;
    let px = p % row_pixels(c);
    let py = p / row_pixels(c);
    &&& px / cs == x
    &&& py / cs == y
    &&& px % cs < fill_size(c.cell_size, c.show_grid)
    &&& py % cs < fill_size(c.cell_size, c.show_grid)
}

/// Whether flat pixel `p` sits on a gridline: inside the grid's pixel rows
/// and on a cell boundary in either direction.
pub open spec fn on_gridline(c: CanvasModel, p: int) -> bool {
    let cs = c.cell_size as int;
    let px = p % row_pixels(c);
    let py = p / row_pixels(c);
    row_pixels(c) > 0 && py < col_pixels(c) && (px % cs == 0 || py % cs == 0)
}

/// The color of canvas pixel `(px, py)` after a frame is drawn: gridline
/// pixels (cell boundaries) win when gridlines are drawn; inside a cell's
/// filled square the cell's state decides; everything else is background.
pub open spec fn canvas_pixel(
    m: GameModel,
    cell_size: nat,
    show_grid: bool,
    px: int,
    py: int,
) -> u32 {
    let cs = cell_size as int;
    if gridlines_on(cell_size, show_grid) && (px % cs == 0 || py % cs == 0) {
        GRID_COLOR
    } else if px % cs < fill_size(cell_size, show_grid) && py % cs < fill_size(
        cell_size,
        show_grid,
    ) && cell_at(m, px / cs, py / cs) {
        ALIVE_COLOR
    } else {
        DEAD_COLOR
    }
}

/// From coordinates to the flat index: `(px, py)` sits at `py * rp + px`.
proof fn lemma_index_from_coords(rp: int, px: int, py: int)
    requires
        rp > 0,
        0 <= px < rp,
        0 <= py,
    ensures
        py * rp + px >= 0,
        (py * rp + px) % rp == px,
        (py * rp + px) / rp == py,
{
    assert(py * rp >= 0) by (nonlinear_arith)
        requires
            py >= 0,
            rp > 0,
    ;
    lemma_fundamental_div_mod_converse(py * rp + px, rp, py, px);
}

/// From the flat index back to coordinates.
proof fn lemma_coords_from_index(rp: int, p: int)
    requires
        rp > 0,
        p >= 0,
    ensures
        0 <= p % rp < rp,
        p / rp >= 0,
        p == (p / rp) * rp + (p % rp),
{
    lemma_fundamental_div_mod(p, rp);
    lemma_mod_bound(p, rp);
    lemma_div_pos_is_pos(p, rp);
    assert(p == (p / rp) * rp + (p % rp)) by (nonlinear_arith)
        requires
            p == rp * (p / rp) + (p % rp),
    ;
}

/// A nonnegative value is below `q * d` exactly when its quotient by `d`
/// is below `q`.
proof fn lemma_area_bound(d: int, q: int, p: int)
    requires
        d > 0,
        q >= 0,
        p >= 0,
    ensures
        (p < q * d) == (p / d < q),
{
    lemma_fundamental_div_mod(p, d);
    lemma_mod_bound(p, d);
    lemma_div_pos_is_pos(p, d);
    assert((p < q * d) == (p / d < q)) by (nonlinear_arith)
        requires
            p == d * (p / d) + (p % d),
            0 <= p % d < d,
            q >= 0,
            d > 0,
    ;
}

/// A pixel column lies in cell `x`'s fill span exactly when its cell is `x`
/// and its offset within the cell is below the fill width.
proof fn lemma_block_coord(cs: int, fill: int, x: int, px: int)
    requires
        cs > 0,
        0 <= fill <= cs,
        0 <= x,
        0 <= px,
    ensures
        (x * cs <= px < x * cs + fill) == (px / cs == x && px % cs < fill),
{
    lemma_fundamental_div_mod(px, cs);
    lemma_mod_bound(px, cs);
    lemma_div_pos_is_pos(px, cs);
    assert((x * cs <= px < x * cs + fill) == (px / cs == x && px % cs < fill))
        by (nonlinear_arith)
        requires
            px == cs * (px / cs) + (px % cs),
            0 <= px % cs < cs,
            0 <= fill <= cs,
            x >= 0,
            px / cs >= 0,
    ;
}

/// A fresh all-zero pixel buffer.
fn make_pixels(n: usize) -> (v: Vec<u32>)
    ensures
        v@.len() == n,
        forall|i: int| 0 <= i < n ==> #[trigger] v@[i] == 0u32,
{
    let mut v: Vec<u32> = Vec::new();
    let mut i: usize = 0;
    while i < n
        invariant
            i <= n,
            v@.len() == i,
            forall|k: int| 0 <= k < i ==> #[trigger] v@[k] == 0u32,
        decreases n - i,
    {
        v.push(0u32);
        i += 1;
    }
    v
}

/// A pixel canvas sized for a grid of `width x height` cells drawn at
/// `cell_size` pixels per cell. The buffer is at least as large as the
/// pixel area the grid covers (it may be larger after a window resize).
pub struct Canvas {
    buffer: Vec<u32>,
    cell_size: usize,
    width: usize,
    height: usize,
    show_grid: bool,
}

impl View for Canvas {
    type V = CanvasModel;

    closed spec fn view(&self) -> CanvasModel {
        CanvasModel {
            width: self.width as nat,
            height: self.height as nat,
            cell_size: self.cell_size as nat,
            show_grid: self.show_grid,
            pixels: self.buffer@,
        }
    }
}

impl Canvas {
    /// Cells are at least one pixel; the pixel geometry fits the machine;
    /// the buffer covers the whole grid area.
    pub closed spec fn inv(&self) -> bool {
        &&& self.cell_size >= 1
        &&& self.width * self.cell_size <= usize::MAX
        &&& self.height * self.cell_size <= usize::MAX
        &&& (self.width * self.cell_size) * (self.height * self.cell_size) <= self.buffer@.len()
    }

    /// A new canvas for a `grid_width x grid_height` grid at `cell_size`
    /// pixels per cell, with a buffer of exactly the grid's pixel area,
    /// initially all zero.
    pub fn new(grid_width: usize, grid_height: usize, cell_size: usize, show_grid: bool) -> (c:
        Canvas)
        requires
            cell_size >= 1,
            grid_width * cell_size <= usize::MAX,
            grid_height * cell_size <= usize::MAX,
            (grid_width * cell_size) * (grid_height * cell_size) <= usize::MAX,
        ensures
            c.inv(),
            c@.width == grid_width,
            c@.height == grid_height,
            c@.cell_size == cell_size,
            c@.show_grid == show_grid,
            c@.pixels.len() == (grid_width * cell_size) * (grid_height * cell_size),
            forall|i: int| 0 <= i < c@.pixels.len() ==> #[trigger] c@.pixels[i] == 0u32,
    {
        let w = grid_width * cell_size;
        let h = grid_height * cell_size;
        Canvas {
            buffer: make_pixels(w * h),
            cell_size,
            width: grid_width,
            height: grid_height,
            show_grid,
        }
    }

    /// The flat pixel buffer, for presentation by a host.
    pub fn buffer(&self) -> (b: &Vec<u32>)
        ensures
            b@ == self@.pixels,
    {
        &self.buffer
    }

    /// The width of the grid this canvas draws, in cells.
    pub fn grid_width(&self) -> (w: usize)
        ensures
            w == self@.width,
    {
        self.width
    }

    /// The height of the grid this canvas draws, in cells.
    pub fn grid_height(&self) -> (h: usize)
        ensures
            h == self@.height,
    {
        self.height
    }

    /// Pixels per cell side.
    pub fn cell_size(&self) -> (s: usize)
        ensures
            s == self@.cell_size,
    {
        self.cell_size
    }

    /// Whether gridlines are enabled.
    pub fn shows_grid(&self) -> (s: bool)
        ensures
            s == self@.show_grid,
    {
        self.show_grid
    }

    /// Writes one pixel, bounds-checked: coordinates outside the grid's
    /// pixel area (and indices outside the buffer) are silently ignored.
    fn put_pixel(&mut self, px: usize, py: usize, color: u32)
        requires
            old(self).inv(),
        ensures
            final(self).inv(),
            final(self)@ == (CanvasModel { pixels: final(self)@.pixels, ..old(self)@ }),
            px < row_pixels(old(self)@) && py < col_pixels(old(self)@) ==> final(self)@.pixels
                == old(self)@.pixels.update(py * row_pixels(old(self)@) + px, color),
            !(px < row_pixels(old(self)@) && py < col_pixels(old(self)@)) ==> final(self)@
                == old(self)@,
    {
        let rp = self.width * self.cell_size;
        let cp = self.height * self.cell_size;
        let len = self.buffer.len();
        if px < rp && py < cp {
            proof {
                assert(py * rp + px < cp * rp && cp * rp == (self.width * self.cell_size) * (
                self.height * self.cell_size)) by (nonlinear_arith)
                    requires
                        px < rp,
                        py < cp,
                        rp == self.width * self.cell_size,
                        cp == self.height * self.cell_size,
                ;
                assert(py * rp + px < len);
            }
            let index = py * rp + px;
            if index < self.buffer.len() {
                self.buffer[index] = color;
            }
        }
    }

    /// Paints the whole buffer with the background color.
    fn clear_buffer(&mut self)
        requires
            old(self).inv(),
        ensures
            final(self).inv(),
            final(self)@ == (CanvasModel { pixels: final(self)@.pixels, ..old(self)@ }),
            final(self)@.pixels.len() == old(self)@.pixels.len(),
            forall|p: int|
                0 <= p < old(self)@.pixels.len() ==> #[trigger] final(self)@.pixels[p]
                    == DEAD_COLOR,
    {
        let len = self.buffer.len();
        let mut i: usize = 0;
        while i < len
            invariant
                self.inv(),
                self@ == (CanvasModel { pixels: self@.pixels, ..old(self)@ }),
                self.buffer@.len() == len,
                i <= len,
                forall|p: int| 0 <= p < i ==> #[trigger] self.buffer@[p] == DEAD_COLOR,
            decreases len - i,
        {
            self.buffer[i] = DEAD_COLOR;
            i += 1;
        }
    }

    /// Fills the square of cell `(x, y)` with the cell's color, one pixel
    /// smaller than the cell when gridlines are enabled; cells outside the
    /// grid are ignored.
    fn draw_cell(&mut self, x: usize, y: usize, alive: bool)
        requires
            old(self).inv(),
        ensures
            final(self).inv(),
            final(self)@ == (CanvasModel { pixels: final(self)@.pixels, ..old(self)@ }),
            final(self)@.pixels.len() == old(self)@.pixels.len(),
            x < old(self)@.width && y < old(self)@.height ==> forall|p: int|
                0 <= p < old(self)@.pixels.len() ==> #[trigger] final(self)@.pixels[p] == (
                if in_fill_of_cell(old(self)@, x as int, y as int, p) {
                    cell_color(alive)
                } else {
                    old(self)@.pixels[p]
                }),
            !(x < old(self)@.width && y < old(self)@.height) ==> final(self)@ == old(self)@,
    {
        if x >= self.width || y >= self.height {
            return ;
        }
        let cs = self.cell_size;
        let rp = self.width * cs;
        let cp = self.height * cs;
        proof {
            assert(x * cs + cs == (x + 1) * cs && (x + 1) * cs <= rp && y * cs + cs == (y + 1)
                * cs && (y + 1) * cs <= cp && rp >= 1) by (nonlinear_arith)
                requires
                    x < self.width,
                    y < self.height,
                    rp == self.width * cs,
                    cp == self.height * cs,
                    cs >= 1,
            ;
        }
        let px_start = x * cs;
        let py_start = y * cs;
        let fill = if self.show_grid {
            cs - 1
        } else {
            cs
        };
        let color = if alive {
            ALIVE_COLOR
        } else {
            DEAD_COLOR
        };
        let ghost c0 = self@;
        let ghost base = self@.pixels;
        proof {
            assert((rp as int) * (cp as int) <= base.len());
        }
        let mut px = px_start;
        while px < px_start + fill
            invariant
                self.inv(),
                self@ == (CanvasModel { pixels: self@.pixels, ..c0 }),
                self@.pixels.len() == base.len(),
                cs == c0.cell_size,
                rp == row_pixels(c0),
                cp == col_pixels(c0),
                fill == fill_size(c0.cell_size, c0.show_grid),
                color == cell_color(alive),
                px_start == x * cs,
                py_start == y * cs,
                px_start <= px <= px_start + fill,
                px_start + fill <= rp,
                py_start + fill <= cp,
                (rp as int) * (cp as int) <= base.len(),
                forall|p: int|
                    0 <= p < base.len() ==> #[trigger] self@.pixels[p] == (if px_start <= (p % (
                    rp as int)) < px && py_start <= (p / (rp as int)) < py_start + fill {
                        color
                    } else {
                        base[p]
                    }),
            decreases px_start + fill - px,
        {
            let mut py = py_start;
            while py < py_start + fill
                invariant
                    self.inv(),
                    self@ == (CanvasModel { pixels: self@.pixels, ..c0 }),
                    self@.pixels.len() == base.len(),
                    cs == c0.cell_size,
                    rp == row_pixels(c0),
                    cp == col_pixels(c0),
                    fill == fill_size(c0.cell_size, c0.show_grid),
                    color == cell_color(alive),
                    px_start == x * cs,
                    py_start == y * cs,
                    px_start <= px < px_start + fill,
                    py_start <= py <= py_start + fill,
                    px_start + fill <= rp,
                    py_start + fill <= cp,
                    (rp as int) * (cp as int) <= base.len(),
                    forall|p: int|
                        0 <= p < base.len() ==> #[trigger] self@.pixels[p] == (if (px_start <= (p
                            % (rp as int)) < px && py_start <= (p / (rp as int)) < py_start + fill)
                            || ((p % (rp as int)) == px && py_start <= (p / (rp as int)) < py) {
                            color
                        } else {
                            base[p]
                        }),
                decreases py_start + fill - py,
            {
                let ghost prev = self@.pixels;
                self.put_pixel(px, py, color);
                proof {
                    lemma_index_from_coords(rp as int, px as int, py as int);
                    assert(py * (rp as int) + px < (rp as int) * (cp as int)) by (nonlinear_arith)
                        requires
                            0 <= px < rp,
                            0 <= py < cp,
                    ;
                    assert(self@.pixels == prev.update(py * (rp as int) + px, color));
                    assert(self@.pixels.len() == prev.len());
                    assert forall|p: int| 0 <= p < base.len() implies #[trigger] self@.pixels[p]
                        == (if (px_start <= (p % (rp as int)) < px && py_start <= (p / (
                    rp as int)) < py_start + fill) || ((p % (rp as int)) == px && py_start <= (p / (
                    rp as int)) < py + 1) {
                        color
                    } else {
                        base[p]
                    }) by {
                        lemma_coords_from_index(rp as int, p);
                    }
                }
                py += 1;
            }
            px += 1;
        }
        proof {
            assert forall|p: int| 0 <= p < base.len() implies #[trigger] self@.pixels[p] == (
            if in_fill_of_cell(c0, x as int, y as int, p) {
                cell_color(alive)
            } else {
                base[p]
            }) by {
                lemma_coords_from_index(rp as int, p);
                if fill > 0 {
                    lemma_block_coord(cs as int, fill as int, x as int, p % (rp as int));
                    lemma_block_coord(cs as int, fill as int, y as int, p / (rp as int));
                }
            }
        }
    }

    /// Overlays gridlines: a line of `GRID_COLOR` at every cell-boundary
    /// column and row of the grid's pixel area; everything else is left as
    /// it was.
    fn draw_grid_lines(&mut self)
        requires
            old(self).inv(),
        ensures
            final(self).inv(),
            final(self)@ == (CanvasModel { pixels: final(self)@.pixels, ..old(self)@ }),
            final(self)@.pixels.len() == old(self)@.pixels.len(),
            forall|p: int|
                0 <= p < old(self)@.pixels.len() ==> #[trigger] final(self)@.pixels[p] == (
                if on_gridline(old(self)@, p) {
                    GRID_COLOR
                } else {
                    old(self)@.pixels[p]
                }),
    {
        let cs = self.cell_size;
        let w = self.width;
        let h = self.height;
        let rp = w * cs;
        let cp = h * cs;
        let ghost c0 = self@;
        let ghost base = self@.pixels;
        proof {
            assert((rp as int) * (cp as int) <= base.len());
        }
        if rp == 0 || cp == 0 {
            proof {
                assert forall|p: int| 0 <= p < base.len() implies !on_gridline(c0, p) by {
                    if rp > 0 {
                        lemma_div_pos_is_pos(p, rp as int);
                    }
                }
            }
            return ;
        }
        let mut x: usize = 0;
        while x < w
            invariant
                self.inv(),
                self@ == (CanvasModel { pixels: self@.pixels, ..c0 }),
                self@.pixels.len() == base.len(),
                cs == c0.cell_size,
                cs >= 1,
                w == c0.width,
                h == c0.height,
                rp == row_pixels(c0),
                cp == col_pixels(c0),
                rp >= 1,
                cp >= 1,
                (rp as int) * (cp as int) <= base.len(),
                x <= w,
                forall|p: int|
                    0 <= p < base.len() ==> #[trigger] self@.pixels[p] == (if p / (rp as int) < cp
                        && (p % (rp as int)) % (cs as int) == 0 && (p % (rp as int)) / (cs as int)
                        < x {
                        GRID_COLOR
                    } else {
                        base[p]
                    }),
            decreases w - x,
        {
            proof {
                assert(x * cs <= rp) by (nonlinear_arith)
                    requires
                        x < w,
                        rp == w * cs,
                        cs >= 1,
                ;
            }
            let px = x * cs;
            let mut yy: usize = 0;
            while yy < cp
                invariant
                    self.inv(),
                    self@ == (CanvasModel { pixels: self@.pixels, ..c0 }),
                    self@.pixels.len() == base.len(),
                    cs == c0.cell_size,
                    cs >= 1,
                    w == c0.width,
                    h == c0.height,
                    rp == row_pixels(c0),
                    cp == col_pixels(c0),
                    rp >= 1,
                    cp >= 1,
                    (rp as int) * (cp as int) <= base.len(),
                    x <= w,
                    px == x * cs,
                    px <= rp,
                    yy <= cp,
                    forall|p: int|
                        0 <= p < base.len() ==> #[trigger] self@.pixels[p] == (if (p / (rp as int)
                            < cp && (p % (rp as int)) % (cs as int) == 0 && (p % (rp as int)) / (
                        cs as int) < x) || (px < rp && (p % (rp as int)) == px && p / (rp as int)
                            < yy) {
                            GRID_COLOR
                        } else {
                            base[p]
                        }),
                decreases cp - yy,
            {
                let ghost prev = self@.pixels;
                self.put_pixel(px, yy, GRID_COLOR);
                proof {
                    if px < rp {
                        lemma_index_from_coords(rp as int, px as int, yy as int);
                        assert(yy * (rp as int) + px < (rp as int) * (cp as int))
                            by (nonlinear_arith)
                            requires
                                0 <= px < rp,
                                0 <= yy < cp,
                        ;
                        assert forall|p: int| 0 <= p < base.len() implies #[trigger] self@.pixels[p]
                            == (if (p / (rp as int) < cp && (p % (rp as int)) % (cs as int) == 0
                            && (p % (rp as int)) / (cs as int) < x) || (px < rp && (p % (
                        rp as int)) == px && p / (rp as int) < yy + 1) {
                            GRID_COLOR
                        } else {
                            base[p]
                        }) by {
                            lemma_coords_from_index(rp as int, p);
                        }
                    }
                }
                yy += 1;
            }
            proof {
                assert forall|p: int| 0 <= p < base.len() implies #[trigger] self@.pixels[p] == (
                if p / (rp as int) < cp && (p % (rp as int)) % (cs as int) == 0 && (p % (
                rp as int)) / (cs as int) < x + 1 {
                    GRID_COLOR
                } else {
                    base[p]
                }) by {
                    lemma_coords_from_index(rp as int, p);
                    lemma_block_coord(cs as int, 1, x as int, p % (rp as int));
                }
            }
            x += 1;
        }
        let ghost mid = self@.pixels;
        proof {
            assert forall|p: int| 0 <= p < base.len() implies mid[p] == (if p / (rp as int) < cp
                && (p % (rp as int)) % (cs as int) == 0 {
                GRID_COLOR
            } else {
                base[p]
            }) by {
                lemma_coords_from_index(rp as int, p);
                lemma_area_bound(cs as int, w as int, p % (rp as int));
            }
        }
        let mut yrow: usize = 0;
        while yrow < h
            invariant
                self.inv(),
                self@ == (CanvasModel { pixels: self@.pixels, ..c0 }),
                self@.pixels.len() == base.len(),
                cs == c0.cell_size,
                cs >= 1,
                w == c0.width,
                h == c0.height,
                rp == row_pixels(c0),
                cp == col_pixels(c0),
                rp >= 1,
                cp >= 1,
                (rp as int) * (cp as int) <= base.len(),
                mid.len() == base.len(),
                yrow <= h,
                forall|p: int|
                    0 <= p < base.len() ==> mid[p] == (if p / (rp as int) < cp && (p % (
                    rp as int)) % (cs as int) == 0 {
                        GRID_COLOR
                    } else {
                        base[p]
                    }),
                forall|p: int|
                    0 <= p < base.len() ==> #[trigger] self@.pixels[p] == (if p / (rp as int) < cp
                        && (p / (rp as int)) % (cs as int) == 0 && (p / (rp as int)) / (cs as int)
                        < yrow {
                        GRID_COLOR
                    } else {
                        mid[p]
                    }),
            decreases h - yrow,
        {
            proof {
                assert(yrow * cs <= cp) by (nonlinear_arith)
                    requires
                        yrow < h,
                        cp == h * cs,
                        cs >= 1,
                ;
            }
            let py = yrow * cs;
            let mut xx: usize = 0;
            while xx < rp
                invariant
                    self.inv(),
                    self@ == (CanvasModel { pixels: self@.pixels, ..c0 }),
                    self@.pixels.len() == base.len(),
                    cs == c0.cell_size,
                    cs >= 1,
                    w == c0.width,
                    h == c0.height,
                    rp == row_pixels(c0),
                    cp == col_pixels(c0),
                    rp >= 1,
                    cp >= 1,
                    (rp as int) * (cp as int) <= base.len(),
                    mid.len() == base.len(),
                    yrow <= h,
                    py == yrow * cs,
                    py <= cp,
                    xx <= rp,
                    forall|p: int|
                        0 <= p < base.len() ==> mid[p] == (if p / (rp as int) < cp && (p % (
                        rp as int)) % (cs as int) == 0 {
                            GRID_COLOR
                        } else {
                            base[p]
                        }),
                    forall|p: int|
                        0 <= p < base.len() ==> #[trigger] self@.pixels[p] == (if (p / (rp as int)
                            < cp && (p / (rp as int)) % (cs as int) == 0 && (p / (rp as int)) / (
                        cs as int) < yrow) || (py < cp && p / (rp as int) == py && p % (rp as int)
                            < xx) {
                            GRID_COLOR
                        } else {
                            mid[p]
                        }),
                decreases rp - xx,
            {
                let ghost prev = self@.pixels;
                self.put_pixel(xx, py, GRID_COLOR);
                proof {
                    if py < cp {
                        lemma_index_from_coords(rp as int, xx as int, py as int);
                        assert(py * (rp as int) + xx < (rp as int) * (cp as int))
                            by (nonlinear_arith)
                            requires
                                0 <= xx < rp,
                                0 <= py < cp,
                        ;
                        assert forall|p: int| 0 <= p < base.len() implies #[trigger] self@.pixels[p]
                            == (if (p / (rp as int) < cp && (p / (rp as int)) % (cs as int) == 0
                            && (p / (rp as int)) / (cs as int) < yrow) || (py < cp && p / (
                        rp as int) == py && p % (rp as int) < xx + 1) {
                            GRID_COLOR
                        } else {
                            mid[p]
                        }) by {
                            lemma_coords_from_index(rp as int, p);
                        }
                    }
                }
                xx += 1;
            }
            proof {
                assert forall|p: int| 0 <= p < base.len() implies #[trigger] self@.pixels[p] == (
                if p / (rp as int) < cp && (p / (rp as int)) % (cs as int) == 0 && (p / (
                rp as int)) / (cs as int) < yrow + 1 {
                    GRID_COLOR
                } else {
                    mid[p]
                }) by {
                    lemma_coords_from_index(rp as int, p);
                    lemma_block_coord(cs as int, 1, yrow as int, p / (rp as int));
                }
            }
            yrow += 1;
        }
        proof {
            assert forall|p: int| 0 <= p < base.len() implies #[trigger] self@.pixels[p] == (
            if on_gridline(c0, p) {
                GRID_COLOR
            } else {
                base[p]
            }) by {
                lemma_coords_from_index(rp as int, p);
                lemma_area_bound(cs as int, h as int, p / (rp as int));
            }
        }
    }

    /// Draws one full frame of `game` into the buffer: background
    /// everywhere, the filled square of every cell, and gridlines on top
    /// when they are drawn. Every pixel of the grid's area ends up exactly
    /// as `canvas_pixel` states; pixels past that area are background.
    pub fn render_frame(&mut self, game: &GameOfLife)
        requires
            old(self).inv(),
            game.inv(),
            old(self)@.width == game@.width,
            old(self)@.height == game@.height,
        ensures
            final(self).inv(),
            final(self)@ == (CanvasModel { pixels: final(self)@.pixels, ..old(self)@ }),
            final(self)@.pixels.len() == old(self)@.pixels.len(),
            forall|p: int|
                0 <= p < grid_area(old(self)@) ==> #[trigger] final(self)@.pixels[p]
                    == canvas_pixel(
                    game@,
                    old(self)@.cell_size,
                    old(self)@.show_grid,
                    p % row_pixels(old(self)@),
                    p / row_pixels(old(self)@),
                ),
            forall|p: int|
                grid_area(old(self)@) <= p < old(self)@.pixels.len()
                    ==> #[trigger] final(self)@.pixels[p] == DEAD_COLOR,
    {
        let ghost m = game@;
        let cs = self.cell_size;
        let w = self.width;
        let h = self.height;
        let rp = w * cs;
        let cp = h * cs;
        self.clear_buffer();
        let ghost c0 = old(self)@;
        let ghost n = old(self)@.pixels.len() as int;
        let ghost fill = fill_size(c0.cell_size, c0.show_grid);
        proof {
            assert((rp as int) * (cp as int) <= n);
        }
        let mut x: usize = 0;
        while x < w
            invariant
                self.inv(),
                game.inv(),
                m == game@,
                self@ == (CanvasModel { pixels: self@.pixels, ..c0 }),
                self@.pixels.len() == n,
                cs == c0.cell_size,
                w == c0.width,
                h == c0.height,
                m.width == c0.width,
                m.height == c0.height,
                cs >= 1,
                rp == row_pixels(c0),
                cp == col_pixels(c0),
                (rp as int) * (cp as int) <= n,
                fill == fill_size(c0.cell_size, c0.show_grid),
                x <= w,
                forall|p: int|
                    0 <= p < n ==> #[trigger] self@.pixels[p] == (if (p % (rp as int)) % (
                    cs as int) < fill && (p / (rp as int)) % (cs as int) < fill && (p % (
                    rp as int)) / (cs as int) < x && cell_at(
                        m,
                        (p % (rp as int)) / (cs as int),
                        (p / (rp as int)) / (cs as int),
                    ) {
                        ALIVE_COLOR
                    } else {
                        DEAD_COLOR
                    }),
            decreases w - x,
        {
            let mut y: usize = 0;
            while y < h
                invariant
                    self.inv(),
                    game.inv(),
                    m == game@,
                    self@ == (CanvasModel { pixels: self@.pixels, ..c0 }),
                    self@.pixels.len() == n,
                    cs == c0.cell_size,
                    w == c0.width,
                    h == c0.height,
                    m.width == c0.width,
                    m.height == c0.height,
                    cs >= 1,
                    rp == row_pixels(c0),
                    cp == col_pixels(c0),
                    (rp as int) * (cp as int) <= n,
                    fill == fill_size(c0.cell_size, c0.show_grid),
                    x < w,
                    y <= h,
                    forall|p: int|
                        0 <= p < n ==> #[trigger] self@.pixels[p] == (if (p % (rp as int)) % (
                        cs as int) < fill && (p / (rp as int)) % (cs as int) < fill && ((p % (
                        rp as int)) / (cs as int) < x || ((p % (rp as int)) / (cs as int) == x && (
                        p / (rp as int)) / (cs as int) < y)) && cell_at(
                            m,
                            (p % (rp as int)) / (cs as int),
                            (p / (rp as int)) / (cs as int),
                        ) {
                            ALIVE_COLOR
                        } else {
                            DEAD_COLOR
                        }),
                decreases h - y,
            {
                let alive = game.get_cell_state(x, y);
                self.draw_cell(x, y, alive);
                y += 1;
            }
            x += 1;
        }
        let ghost cells_px = self@.pixels;
        if self.show_grid && self.cell_size > MIN_GRID_CELL_SIZE {
            self.draw_grid_lines();
        }
        proof {
            assert forall|p: int| 0 <= p < grid_area(c0) implies #[trigger] self@.pixels[p]
                == canvas_pixel(m, c0.cell_size, c0.show_grid, p % row_pixels(c0), p / row_pixels(
                c0,
            )) by {
                assert(rp > 0 && cp > 0) by (nonlinear_arith)
                    requires
                        (rp as int) * (cp as int) > p,
                        p >= 0,
                ;
                lemma_coords_from_index(rp as int, p);
                assert((rp as int) * (cp as int) == (cp as int) * (rp as int)) by (nonlinear_arith);
                lemma_area_bound(rp as int, cp as int, p);
                lemma_area_bound(cs as int, w as int, p % (rp as int));
                lemma_area_bound(cs as int, h as int, p / (rp as int));
            }
            assert forall|p: int| grid_area(c0) <= p < n implies #[trigger] self@.pixels[p]
                == DEAD_COLOR by {
                if rp > 0 {
                    lemma_coords_from_index(rp as int, p);
                    assert((rp as int) * (cp as int) == (cp as int) * (rp as int))
                        by (nonlinear_arith);
                    lemma_area_bound(rp as int, cp as int, p);
                    lemma_area_bound(cs as int, h as int, p / (rp as int));
                } else {
                    assert(w == 0) by (nonlinear_arith)
                        requires
                            rp == w * cs,
                            rp == 0,
                            cs >= 1,
                    ;
                }
            }
        }
    }

    /// Reconciles the canvas and the simulation with a display surface of
    /// the given pixel dimensions: the grid dimensions become the number of
    /// whole cells that fit; when they change, the buffer is reallocated to
    /// the surface's pixel count and the simulation is resized, preserving
    /// the overlapping cells; when they do not, nothing changes.
    pub fn handle_resize(&mut self, surface_width: usize, surface_height: usize, game: &mut GameOfLife)
        requires
            old(self).inv(),
            old(game).inv(),
            surface_width * surface_height <= usize::MAX,
        ensures
            final(self).inv(),
            final(game).inv(),
            final(self)@.width == surface_width as int / (old(self)@.cell_size as int),
            final(self)@.height == surface_height as int / (old(self)@.cell_size as int),
            final(self)@.cell_size == old(self)@.cell_size,
            final(self)@.show_grid == old(self)@.show_grid,
            surface_width as int / (old(self)@.cell_size as int) == old(self)@.width
                && surface_height as int / (old(self)@.cell_size as int) == old(self)@.height ==> (
            final(self)@ == old(self)@ && final(game)@ == old(game)@),
            !(surface_width as int / (old(self)@.cell_size as int) == old(self)@.width
                && surface_height as int / (old(self)@.cell_size as int) == old(self)@.height) ==> (
            final(self)@.pixels.len() == surface_width * surface_height && final(game)@.width
                == final(self)@.width && final(game)@.height == final(self)@.height
                && final(game)@ == (GameModel {
                width: final(game)@.width,
                height: final(game)@.height,
                cells: final(game)@.cells,
                ..old(game)@
            })),
            forall|i: int, j: int|
                #[trigger] cell_at(final(game)@, i, j) == (i < final(game)@.width
                    && j < final(game)@.height && cell_at(old(game)@, i, j)),
    {
        let cs = self.cell_size;
        let new_w = surface_width / cs;
        let new_h = surface_height / cs;
        if new_w != self.width || new_h != self.height {
            proof {
                lemma_fundamental_div_mod(surface_width as int, cs as int);
                lemma_mod_bound(surface_width as int, cs as int);
                lemma_fundamental_div_mod(surface_height as int, cs as int);
                lemma_mod_bound(surface_height as int, cs as int);
                assert(new_w * cs <= surface_width && new_h * cs <= surface_height && (new_w * cs)
                    * (new_h * cs) <= surface_width * surface_height) by (nonlinear_arith)
                    requires
                        surface_width == cs * new_w + (surface_width as int % (cs as int)),
                        surface_height == cs * new_h + (surface_height as int % (cs as int)),
                        0 <= surface_width as int % (cs as int),
                        0 <= surface_height as int % (cs as int),
                        new_w >= 0,
                        new_h >= 0,
                        cs >= 1,
                ;
            }
            self.buffer = make_pixels(surface_width * surface_height);
            self.width = new_w;
            self.height = new_h;
            game.resize(new_w, new_h);
        } else {
            proof {
                assert forall|i: int, j: int|
                    #[trigger] cell_at(game@, i, j) == (i < game@.width && j < game@.height
                        && cell_at(old(game)@, i, j)) by {}
            }
        }
    }
}

} // verus!
