//! The falling-sand grid: a fixed-size 2-D cell array with point and
//! radius painting, a discrete gravity-driven settling step, and a
//! dirty-flag-gated upload of its pixel representation.
//!
//! Logical coordinates put `(0, 0)` at the bottom-left with y increasing
//! upward; cell `(x, y)` lives at storage index `(height - y - 1) * width
//! + x`, so row 0 of the backing array is the top display row. The pixel
//! buffer is kept in step with the cell array by routing every mutation
//! through [`SandGrid::paint_cell`].

use vstd::prelude::*;

use crate::cell::Cell;
use crate::cell::Material;
use crate::cell::Rgba8;
use crate::cell::cell_of;
use crate::cell::empty_cell;
use crate::coin::CoinTape;
use crate::pixbuf::PixBuf;
use crate::pixbuf::rgba_bytes;
use crate::pixbuf::rgba_image_new;
use crate::pixbuf::rgba_put_pixel;
use crate::pixbuf::rgba_raw;
use crate::pixbuf::rgba_size;
use crate::upload::Uploader;

verus! {

/// The mathematical content of a [`SandGrid`]: its dimensions, its cells
/// in storage order, the raw bytes of its pixel buffer, and the dirty
/// flag.
#[verifier::ext_equal]
pub struct GridView {
    pub width: nat,
    pub height: nat,
    pub cells: Seq<Cell>,
    pub bytes: Seq<u8>,
    pub dirty: bool,
}

impl GridView {
    /// The storage index of logical coordinate `(x, y)`: the y axis is
    /// inverted so that row 0 of storage is the top display row.
    pub open spec fn idx(self, x: int, y: int) -> int {
        (self.height - 1 - y) * self.width + x
    }

    /// Whether `(x, y)` lies within `[0, width) x [0, height)`.
    pub open spec fn in_bounds(self, x: int, y: int) -> bool {
        0 <= x < self.width && 0 <= y < self.height
    }

    /// The cell at logical coordinate `(x, y)`.
    pub open spec fn cell(self, x: int, y: int) -> Cell {
        self.cells[self.idx(x, y)]
    }

    /// Whether the four pixel-buffer bytes of the cell at storage index
    /// `i` spell the color `c`.
    pub open spec fn pixel_matches(self, i: int, c: Rgba8) -> bool {
        &&& self.bytes[4 * i] == c.r
        &&& self.bytes[4 * i + 1] == c.g
        &&& self.bytes[4 * i + 2] == c.b
        &&& self.bytes[4 * i + 3] == c.a
    }

    /// Well-formedness: the buffers have the right lengths and the pixel
    /// buffer displays exactly the cells' colors.
    pub open spec fn wf(self) -> bool {
        &&& 4 * (self.width * self.height) <= u32::MAX
        &&& self.cells.len() == self.width * self.height
        &&& self.bytes.len() == 4 * (self.width * self.height)
        &&& forall|i: int|
            0 <= i < self.cells.len() ==> self.pixel_matches(i, self.cells[i].color)
    }
}

/// Whether the integer offset `(dx, dy)` lies inside the painted disc of
/// rounded radius `rr`: the Euclidean distance of `(dx, dy)` from the
/// origin, rounded to the nearest integer (halves rounding away from
/// zero), is strictly less than `rr`. For integers that comparison is
/// exactly `4 * (dx^2 + dy^2) < (2 * rr - 1)^2`.
pub open spec fn in_disc(dx: int, dy: int, rr: int) -> bool {
    rr >= 1 && 4 * (dx * dx + dy * dy) < (2 * rr - 1) * (2 * rr - 1)
}

/// Points of the painted disc lie within `rr - 1` of the center on each
/// axis.
proof fn lemma_disc_bounds(dx: int, dy: int, rr: int)
    by (nonlinear_arith)
    requires
        in_disc(dx, dy, rr),
    ensures
        -(rr - 1) <= dx <= rr - 1,
        -(rr - 1) <= dy <= rr - 1,
{
}

/// The storage index of an in-bounds coordinate lies inside the cell
/// array.
proof fn lemma_idx_in_range(w: int, h: int, x: int, y: int)
    by (nonlinear_arith)
    requires
        0 <= x < w,
        0 <= y < h,
    ensures
        0 <= (h - 1 - y) * w + x < w * h,
{
}

/// Distinct in-bounds coordinates have distinct storage indices.
proof fn lemma_idx_injective(w: int, h: int, x1: int, y1: int, x2: int, y2: int)
    by (nonlinear_arith)
    requires
        0 <= x1 < w,
        0 <= y1 < h,
        0 <= x2 < w,
        0 <= y2 < h,
        x1 != x2 || y1 != y2,
    ensures
        (h - 1 - y1) * w + x1 != (h - 1 - y2) * w + x2,
{
}

/// One intermediate state of the settling scan: the cells in storage
/// order, the coin tosses not yet consumed, and whether any cell has
/// moved so far.
#[verifier::ext_equal]
pub struct ScanState {
    pub cells: Seq<Cell>,
    pub coins: Seq<bool>,
    pub moved: bool,
}

/// The storage index of logical `(x, y)` in a `w` by `h` grid.
pub open spec fn grid_idx(w: nat, h: nat, x: int, y: int) -> int {
    (h - 1 - y) * w + x
}

/// The settling rule for the single cell at logical `(x, y)`, applied to
/// scan state `s`. A non-empty cell above the bottom row falls straight
/// down into an empty cell below. If the cell below is occupied, one
/// coin is drawn: on a true toss the cell moves down-left when such a
/// column exists and is empty; otherwise it moves down-right when such a
/// column exists and is empty; failing both, it stays. A move paints the
/// source empty and the destination with the moved cell.
pub open spec fn cell_rule(w: nat, h: nat, s: ScanState, x: int, y: int) -> ScanState {
    let cur = s.cells[grid_idx(w, h, x, y)];
    if cur.material == Material::Empty || y < 1 {
        s
    } else if s.cells[grid_idx(w, h, x, y - 1)].material == Material::Empty {
        ScanState {
            cells: s.cells.update(grid_idx(w, h, x, y), empty_cell()).update(
                grid_idx(w, h, x, y - 1),
                cur,
            ),
            coins: s.coins,
            moved: true,
        }
    } else {
        let toss = if s.coins.len() > 0 {
            s.coins[0]
        } else {
            false
        };
        let rest = if s.coins.len() > 0 {
            s.coins.drop_first()
        } else {
            s.coins
        };
        if toss && x >= 1 {
            if s.cells[grid_idx(w, h, x - 1, y - 1)].material == Material::Empty {
                ScanState {
                    cells: s.cells.update(grid_idx(w, h, x, y), empty_cell()).update(
                        grid_idx(w, h, x - 1, y - 1),
                        cur,
                    ),
                    coins: rest,
                    moved: true,
                }
            } else {
                ScanState { cells: s.cells, coins: rest, moved: s.moved }
            }
        } else if x + 1 < w {
            if s.cells[grid_idx(w, h, x + 1, y - 1)].material == Material::Empty {
                ScanState {
                    cells: s.cells.update(grid_idx(w, h, x, y), empty_cell()).update(
                        grid_idx(w, h, x + 1, y - 1),
                        cur,
                    ),
                    coins: rest,
                    moved: true,
                }
            } else {
                ScanState { cells: s.cells, coins: rest, moved: s.moved }
            }
        } else {
            ScanState { cells: s.cells, coins: rest, moved: s.moved }
        }
    }
}

/// The settling rule applied to the first `x` cells of row `y`, left to
/// right.
pub open spec fn row_scan(w: nat, h: nat, s: ScanState, y: int, x: int) -> ScanState
    decreases x,
{
    if x <= 0 {
        s
    } else {
        cell_rule(w, h, row_scan(w, h, s, y, x - 1), x - 1, y)
    }
}

/// The settling rule applied to the first `y` rows, bottom to top, each
/// row scanned fully left to right.
pub open spec fn grid_scan(w: nat, h: nat, s: ScanState, y: int) -> ScanState
    decreases y,
{
    if y <= 0 {
        s
    } else {
        row_scan(w, h, grid_scan(w, h, s, y - 1), y - 1, w as int)
    }
}

/// One full settling step on `cells` with the coin tosses `coins`
/// available for tie-breaks: every row from the bottom up, every column
/// left to right. Because rows are scanned bottom to top, a cell that
/// falls lands in a row the scan has already passed and is not moved
/// twice within one step.
pub open spec fn sim_step(cells: Seq<Cell>, w: nat, h: nat, coins: Seq<bool>) -> ScanState {
    grid_scan(w, h, ScanState { cells, coins, moved: false }, h as int)
}

/// On an all-empty state the settling rule leaves a row scan unchanged.
proof fn lemma_row_scan_all_empty(w: nat, h: nat, s: ScanState, y: int, x: int)
    requires
        s.cells.len() == w * h,
        forall|i: int| 0 <= i < s.cells.len() ==> s.cells[i].material == Material::Empty,
        0 <= y < h,
        0 <= x <= w,
    ensures
        row_scan(w, h, s, y, x) == s,
    decreases x,
{
    if x > 0 {
        lemma_row_scan_all_empty(w, h, s, y, x - 1);
        lemma_idx_in_range(w as int, h as int, x - 1, y);
    }
}

/// On an all-empty state the settling rule leaves a grid scan unchanged.
proof fn lemma_grid_scan_all_empty(w: nat, h: nat, s: ScanState, y: int)
    requires
        s.cells.len() == w * h,
        forall|i: int| 0 <= i < s.cells.len() ==> s.cells[i].material == Material::Empty,
        0 <= y <= h,
    ensures
        grid_scan(w, h, s, y) == s,
    decreases y,
{
    if y > 0 {
        lemma_grid_scan_all_empty(w, h, s, y - 1);
        lemma_row_scan_all_empty(w, h, s, y - 1, w as int);
    }
}

/// A grid with no non-empty cells is a fixed point of the settling step:
/// the cells come out unchanged, no coin is drawn, and nothing moved —
/// so the step does not set the dirty flag either.
pub proof fn lemma_sim_step_all_empty(cells: Seq<Cell>, w: nat, h: nat, coins: Seq<bool>)
    requires
        cells.len() == w * h,
        forall|i: int| 0 <= i < cells.len() ==> cells[i].material == Material::Empty,
    ensures
        sim_step(cells, w, h, coins) == (ScanState { cells, coins, moved: false }),
{
    lemma_grid_scan_all_empty(w, h, ScanState { cells, coins, moved: false }, h as int);
}

/// The radius scan has painted exactly the disc cells that precede
/// position `(xx, yy)` in its row-by-row order: every in-bounds cell
/// strictly before that position holds the fresh material cell if it is
/// in the disc around `(cx, cy)`, and its old value otherwise; every
/// later cell is untouched.
spec fn painted_until(
    v0: GridView,
    v: GridView,
    cx: int,
    cy: int,
    rr: int,
    m: Material,
    yy: int,
    xx: int,
) -> bool {
    forall|x: int, y: int|
        v0.in_bounds(x, y) ==> #[trigger] v.cell(x, y) == (
        if in_disc(x - cx, y - cy, rr) && (y < yy || (y == yy && x < xx)) {
            cell_of(m)
        } else {
            v0.cell(x, y)
        })
}

/// No cell before position `(xx, yy)` of the radius scan lies in the
/// disc around `(cx, cy)`.
spec fn no_hit_until(v0: GridView, cx: int, cy: int, rr: int, yy: int, xx: int) -> bool {
    forall|x: int, y: int|
        #![trigger v0.in_bounds(x, y)]
        v0.in_bounds(x, y) && (y < yy || (y == yy && x < xx)) ==> !in_disc(x - cx, y - cy, rr)
}

/// A fixed-size 2-D cell array with a parallel RGBA pixel buffer and a
/// dirty flag that records whether the pixel buffer has changes pending
/// upload.
pub struct SandGrid {
    cells: Vec<Cell>,
    pixels: PixBuf,
    width: u32,
    height: u32,
    dirty: bool,
}

impl View for SandGrid {
    type V = GridView;

    closed spec fn view(&self) -> GridView {
        GridView {
            width: self.width as nat,
            height: self.height as nat,
            cells: self.cells@,
            bytes: rgba_bytes(self.pixels),
            dirty: self.dirty,
        }
    }
}

impl SandGrid {
    /// The grid's internal invariant: the view is well formed and the
    /// pixel buffer really has the grid's dimensions.
    pub closed spec fn wf(&self) -> bool {
        &&& self@.wf()
        &&& rgba_size(self.pixels) == (self.width, self.height)
    }

    /// A grid of the given dimensions, every cell empty, every pixel
    /// clear, with no upload pending. Dimensions are fixed for the life
    /// of the grid; the byte count of the pixel buffer must fit in the
    /// index range the buffer supports.
    pub fn new(width: u32, height: u32) -> (grid: SandGrid)
        requires
            4 * (width * height) <= u32::MAX,
        ensures
            grid.wf(),
            grid@.width == width,
            grid@.height == height,
            grid@.dirty == false,
            grid@.cells.len() == width * height,
            forall|i: int| 0 <= i < grid@.cells.len() ==> grid@.cells[i] == empty_cell(),
    {
        let count: usize = (width as usize) * (height as usize);
        let mut cells: Vec<Cell> = Vec::new();
        let mut i: usize = 0;
        while i < count
            invariant
                i <= count,
                count == width * height,
                cells@.len() == i,
                forall|j: int| 0 <= j < i ==> cells@[j] == empty_cell(),
            decreases count - i,
        {
            cells.push(Cell::empty());
            i = i + 1;
        }
        let pixels = rgba_image_new(width, height);
        SandGrid { cells, pixels, width, height, dirty: false }
    }

    /// The grid's width in cells.
    pub fn width(&self) -> (w: u32)
        ensures
            w == self@.width,
    {
        self.width
    }

    /// The grid's height in cells.
    pub fn height(&self) -> (h: u32)
        ensures
            h == self@.height,
    {
        self.height
    }

    /// Whether the pixel buffer has changes not yet uploaded.
    pub fn is_dirty(&self) -> (d: bool)
        ensures
            d == self@.dirty,
    {
        self.dirty
    }

    /// The cell at logical coordinate `(x, y)`.
    pub fn cell_at(&self, x: u32, y: u32) -> (c: Cell)
        requires
            self.wf(),
            x < self@.width,
            y < self@.height,
        ensures
            c == self@.cell(x as int, y as int),
    {
        proof {
            lemma_idx_in_range(self@.width as int, self@.height as int, x as int, y as int);
        }
        let row = self.height - 1 - y;
        let idx: usize = (row as usize) * (self.width as usize) + (x as usize);
        self.cells[idx]
    }

    /// The raw pixel buffer: dense RGBA bytes, row-major, top row first,
    /// four bytes per pixel, tightly packed.
    pub fn pixel_data(&self) -> (raw: &Vec<u8>)
        ensures
            raw@ == self@.bytes,
    {
        rgba_raw(&self.pixels)
    }

    /// If the pixel buffer has changes pending upload, hand the full
    /// buffer to the uploader exactly once and clear the dirty flag;
    /// otherwise do not invoke the uploader at all. Cells, pixels and
    /// dimensions are untouched either way. Returns whether an upload
    /// happened.
    pub fn sync_if_dirty<U: Uploader>(&mut self, uploader: &mut U) -> (uploaded: bool)
        requires
            old(self).wf(),
        ensures
            final(self).wf(),
            uploaded == old(self)@.dirty,
            final(self)@ == (GridView { dirty: false, ..old(self)@ }),
            old(self)@.dirty ==> final(uploader).log() == old(uploader).log().push(
                old(self)@.bytes,
            ),
            !old(self)@.dirty ==> final(uploader).log() == old(uploader).log(),
    {
        if self.dirty {
            uploader.upload(rgba_raw(&self.pixels));
            self.dirty = false;
            proof {
                assert(self@ =~= (GridView { dirty: false, ..old(self)@ }));
            }
            true
        } else {
            proof {
                assert(self@ =~= (GridView { dirty: false, ..old(self)@ }));
            }
            false
        }
    }

    /// Advance the automaton by one settling step. Rows are scanned
    /// bottom to top and columns left to right, so a cell that falls is
    /// not revisited within the same step — this ordering is
    /// load-bearing. Tie-breaks between the two diagonal falls draw one
    /// toss from the tape per non-empty cell resting on an occupied
    /// cell. The dirty flag is set exactly when some cell moved, on top
    /// of whatever it already was.
    pub fn simulate(&mut self, tape: &mut CoinTape)
        requires
            old(self).wf(),
        ensures
            final(self).wf(),
            final(self)@.width == old(self)@.width,
            final(self)@.height == old(self)@.height,
            ({
                let r = sim_step(
                    old(self)@.cells,
                    old(self)@.width,
                    old(self)@.height,
                    old(tape).remaining(),
                );
                &&& final(self)@.cells == r.cells
                &&& final(tape).remaining() == r.coins
                &&& final(self)@.dirty == (old(self)@.dirty || r.moved)
            }),
    {
        let w = self.width;
        let h = self.height;
        let ghost s0 = ScanState {
            cells: self@.cells,
            coins: tape.remaining(),
            moved: false,
        };
        let mut moved_any = false;
        let mut y: u32 = 0;
        while y < h
            invariant
                self.wf(),
                self@.width == w as nat,
                self@.height == h as nat,
                old(self)@.width == w as nat,
                old(self)@.height == h as nat,
                y <= h,
                s0 == (ScanState {
                    cells: old(self)@.cells,
                    coins: old(tape).remaining(),
                    moved: false,
                }),
                (ScanState { cells: self@.cells, coins: tape.remaining(), moved: moved_any })
                    == grid_scan(w as nat, h as nat, s0, y as int),
                self@.dirty == (old(self)@.dirty || moved_any),
            decreases h - y,
        {
            let mut x: u32 = 0;
            while x < w
                invariant
                    self.wf(),
                    self@.width == w as nat,
                    self@.height == h as nat,
                    old(self)@.width == w as nat,
                    old(self)@.height == h as nat,
                    y < h,
                    x <= w,
                    s0 == (ScanState {
                        cells: old(self)@.cells,
                        coins: old(tape).remaining(),
                        moved: false,
                    }),
                    (ScanState { cells: self@.cells, coins: tape.remaining(), moved: moved_any })
                        == row_scan(
                        w as nat,
                        h as nat,
                        grid_scan(w as nat, h as nat, s0, y as int),
                        y as int,
                        x as int,
                    ),
                    self@.dirty == (old(self)@.dirty || moved_any),
                decreases w - x,
            {
                proof {
                    assert(w as int <= 0x4000_0000 && h as int <= 0x4000_0000)
                        by (nonlinear_arith)
                        requires
                            4 * ((w as int) * (h as int)) <= u32::MAX,
                            1 <= w as int,
                            1 <= h as int,
                    ;
                }
                let ghost st = row_scan(
                    w as nat,
                    h as nat,
                    grid_scan(w as nat, h as nat, s0, y as int),
                    y as int,
                    x as int,
                );
                let curr = self.cell_at(x, y);
                if !curr.is_empty() && y >= 1 {
                    let below = self.cell_at(x, y - 1);
                    if below.is_empty() {
                        self.paint_cell(x as i32, y as i32, Cell::empty());
                        self.paint_cell(x as i32, (y - 1) as i32, curr);
                        moved_any = true;
                    } else {
                        let toss = tape.next();
                        if toss && x >= 1 {
                            let down_left = self.cell_at(x - 1, y - 1);
                            if down_left.is_empty() {
                                self.paint_cell(x as i32, y as i32, Cell::empty());
                                self.paint_cell((x - 1) as i32, (y - 1) as i32, curr);
                                moved_any = true;
                            }
                        } else if x + 1 < w {
                            let down_right = self.cell_at(x + 1, y - 1);
                            if down_right.is_empty() {
                                self.paint_cell(x as i32, y as i32, Cell::empty());
                                self.paint_cell((x + 1) as i32, (y - 1) as i32, curr);
                                moved_any = true;
                            }
                        }
                    }
                }
                proof {
                    assert((ScanState {
                        cells: self@.cells,
                        coins: tape.remaining(),
                        moved: moved_any,
                    }) == cell_rule(w as nat, h as nat, st, x as int, y as int));
                    assert(row_scan(
                        w as nat,
                        h as nat,
                        grid_scan(w as nat, h as nat, s0, y as int),
                        y as int,
                        x as int + 1,
                    ) == cell_rule(w as nat, h as nat, st, x as int, y as int));
                }
                x = x + 1;
            }
            proof {
                assert(grid_scan(w as nat, h as nat, s0, y as int + 1) == row_scan(
                    w as nat,
                    h as nat,
                    grid_scan(w as nat, h as nat, s0, y as int),
                    y as int,
                    w as int,
                ));
            }
            y = y + 1;
        }
    }

    /// Paint a disc around `(cx, cy)`: every cell whose Euclidean
    /// distance to the center rounds to strictly less than the radius is
    /// overwritten with a fresh cell of the given material, clipped to
    /// the grid bounds; everything else is untouched. Distance and radius
    /// enter the comparison rounded to the nearest integer — the radius
    /// is taken already rounded, as `radius` — which yields a blocky disc
    /// rather than a smooth circle. The dirty flag is set exactly when at
    /// least one in-bounds cell lies in the disc.
    pub fn paint_radius(&mut self, cx: i32, cy: i32, material: Material, radius: i32)
        requires
            old(self).wf(),
        ensures
            final(self).wf(),
            final(self)@.width == old(self)@.width,
            final(self)@.height == old(self)@.height,
            forall|x: int, y: int|
                old(self)@.in_bounds(x, y) ==> #[trigger] final(self)@.cell(x, y) == (
                if in_disc(x - cx, y - cy, radius as int) {
                    cell_of(material)
                } else {
                    old(self)@.cell(x, y)
                }),
            final(self)@.dirty == (old(self)@.dirty || exists|x: int, y: int|
                #[trigger] old(self)@.in_bounds(x, y) && in_disc(
                    x - cx,
                    y - cy,
                    radius as int,
                )),
    {
        let fresh = Cell::of_material(material);
        if radius < 1 {
            return;
        }
        let w = self.width;
        let h = self.height;
        let cx64: i64 = cx as i64;
        let cy64: i64 = cy as i64;
        let r1: i64 = (radius as i64) - 1;
        let x_lo: i64 = if cx64 - r1 > 0 {
            cx64 - r1
        } else {
            0
        };
        let x_hi: i64 = if cx64 + r1 < (w as i64) - 1 {
            cx64 + r1
        } else {
            (w as i64) - 1
        };
        let y_lo: i64 = if cy64 - r1 > 0 {
            cy64 - r1
        } else {
            0
        };
        let y_hi: i64 = if cy64 + r1 < (h as i64) - 1 {
            cy64 + r1
        } else {
            (h as i64) - 1
        };
        let mut hit = false;
        let ghost mut wx: int = 0;
        let ghost mut wy: int = 0;
        let mut yy: i64 = y_lo;
        proof {
            assert forall|x: int, y: int|
                old(self)@.in_bounds(x, y) && in_disc(
                    x - cx,
                    y - cy,
                    radius as int,
                ) implies !(y < yy || (y == yy && x < 0)) by {
                lemma_disc_bounds(x - cx, y - cy, radius as int);
            }
        }
        while yy <= y_hi
            invariant
                self.wf(),
                self@.width == w as nat,
                self@.height == h as nat,
                old(self)@.width == w as nat,
                old(self)@.height == h as nat,
                self@.dirty == (old(self)@.dirty || hit),
                1 <= radius,
                r1 == radius as int - 1,
                0 <= x_lo,
                cx64 - r1 <= x_lo,
                x_lo == 0 || x_lo == cx64 - r1,
                x_hi <= w as int - 1,
                x_hi <= cx64 + r1,
                x_hi == w as int - 1 || x_hi == cx64 + r1,
                0 <= y_lo,
                cy64 - r1 <= y_lo,
                y_lo == 0 || y_lo == cy64 - r1,
                y_hi <= h as int - 1,
                y_hi <= cy64 + r1,
                y_hi == h as int - 1 || y_hi == cy64 + r1,
                cx64 == cx as int,
                cy64 == cy as int,
                y_lo <= yy,
                yy <= y_hi + 1 || yy == y_lo,
                painted_until(
                    old(self)@,
                    self@,
                    cx as int,
                    cy as int,
                    radius as int,
                    material,
                    yy as int,
                    0,
                ),
                fresh == cell_of(material),
                hit ==> old(self)@.in_bounds(wx, wy) && in_disc(
                    wx - cx as int,
                    wy - cy as int,
                    radius as int,
                ),
                !hit ==> no_hit_until(old(self)@, cx as int, cy as int, radius as int, yy as int, 0),
            decreases y_hi + 1 - yy,
        {
            let mut xx: i64 = x_lo;
            proof {
                assert forall|x: int, y: int|
                    old(self)@.in_bounds(x, y) && in_disc(
                        x - cx,
                        y - cy,
                        radius as int,
                    ) implies !(y == yy && x < xx) by {
                    lemma_disc_bounds(x - cx, y - cy, radius as int);
                }
            }
            while xx <= x_hi
                invariant
                    self.wf(),
                    self@.width == w as nat,
                    self@.height == h as nat,
                    old(self)@.width == w as nat,
                    old(self)@.height == h as nat,
                    self@.dirty == (old(self)@.dirty || hit),
                    1 <= radius,
                    r1 == radius as int - 1,
                    0 <= x_lo,
                    cx64 - r1 <= x_lo,
                    x_lo == 0 || x_lo == cx64 - r1,
                    x_hi <= w as int - 1,
                    x_hi <= cx64 + r1,
                    cx64 == cx as int,
                    cy64 == cy as int,
                    x_lo <= xx,
                    xx <= x_hi + 1 || xx == x_lo,
                    0 <= y_lo <= yy <= y_hi <= h as int - 1,
                    painted_until(
                        old(self)@,
                        self@,
                        cx as int,
                        cy as int,
                        radius as int,
                        material,
                        yy as int,
                        xx as int,
                    ),
                    fresh == cell_of(material),
                    hit ==> old(self)@.in_bounds(wx, wy) && in_disc(
                        wx - cx as int,
                        wy - cy as int,
                        radius as int,
                    ),
                    !hit ==> no_hit_until(
                        old(self)@,
                        cx as int,
                        cy as int,
                        radius as int,
                        yy as int,
                        xx as int,
                    ),
                decreases x_hi + 1 - xx,
            {
                proof {
                    assert(w as int <= 0x4000_0000 && h as int <= 0x4000_0000)
                        by (nonlinear_arith)
                        requires
                            4 * ((w as int) * (h as int)) <= u32::MAX,
                            1 <= w as int,
                            1 <= h as int,
                    ;
                }
                let dx: i128 = (xx as i128) - (cx as i128);
                let dy: i128 = (yy as i128) - (cy as i128);
                let tr: i128 = 2 * (radius as i128) - 1;
                proof {
                    assert(0 <= dx * dx <= 0x1_0000_0000_0000_0000i128 && 0 <= dy * dy
                        <= 0x1_0000_0000_0000_0000i128 && 0 <= tr * tr
                        <= 0x1_0000_0000_0000_0000i128)
                        by (nonlinear_arith)
                        requires
                            -(0x1_0000_0000i128) <= dx <= 0x1_0000_0000i128,
                            -(0x1_0000_0000i128) <= dy <= 0x1_0000_0000i128,
                            -(0x1_0000_0000i128) <= tr <= 0x1_0000_0000i128,
                    ;
                }
                let ghost pre = self@;
                if 4 * (dx * dx + dy * dy) < tr * tr {
                    self.paint_cell(xx as i32, yy as i32, fresh);
                    hit = true;
                    proof {
                        wx = xx as int;
                        wy = yy as int;
                        assert forall|x: int, y: int|
                            old(self)@.in_bounds(x, y) implies #[trigger] self@.cell(x, y) == (
                        if in_disc(x - cx, y - cy, radius as int) && (y < yy || (y == yy && x < xx
                            + 1)) {
                            cell_of(material)
                        } else {
                            old(self)@.cell(x, y)
                        }) by {
                            lemma_idx_in_range(w as int, h as int, x, y);
                            lemma_idx_in_range(w as int, h as int, xx as int, yy as int);
                            if x == xx as int && y == yy as int {
                                assert(self@.cell(x, y) == fresh);
                            } else {
                                lemma_idx_injective(
                                    w as int,
                                    h as int,
                                    x,
                                    y,
                                    xx as int,
                                    yy as int,
                                );
                                assert(self@.cell(x, y) == pre.cell(x, y));
                                assert(pre.cell(x, y) == (
                                if in_disc(x - cx, y - cy, radius as int) && (y < yy || (y == yy
                                    && x < xx)) {
                                    cell_of(material)
                                } else {
                                    old(self)@.cell(x, y)
                                }));
                            }
                        }
                    }
                } else {
                    proof {
                        assert forall|x: int, y: int|
                            old(self)@.in_bounds(x, y) implies #[trigger] self@.cell(x, y) == (
                        if in_disc(x - cx, y - cy, radius as int) && (y < yy || (y == yy && x < xx
                            + 1)) {
                            cell_of(material)
                        } else {
                            old(self)@.cell(x, y)
                        }) by {
                            assert(pre.cell(x, y) == (
                            if in_disc(x - cx, y - cy, radius as int) && (y < yy || (y == yy && x
                                < xx)) {
                                cell_of(material)
                            } else {
                                old(self)@.cell(x, y)
                            }));
                        }
                    }
                }
                xx = xx + 1;
            }
            proof {
                assert forall|x: int, y: int|
                    old(self)@.in_bounds(x, y) && in_disc(
                        x - cx,
                        y - cy,
                        radius as int,
                    ) && y == yy implies x < xx by {
                    lemma_disc_bounds(x - cx, y - cy, radius as int);
                }
            }
            yy = yy + 1;
        }
        proof {
            assert forall|x: int, y: int|
                old(self)@.in_bounds(x, y) implies #[trigger] self@.cell(x, y) == (
            if in_disc(x - cx, y - cy, radius as int) {
                cell_of(material)
            } else {
                old(self)@.cell(x, y)
            }) by {
                if in_disc(x - cx, y - cy, radius as int) {
                    lemma_disc_bounds(x - cx, y - cy, radius as int);
                }
            }
            if hit {
                assert(old(self)@.in_bounds(wx, wy) && in_disc(
                    wx - cx as int,
                    wy - cy as int,
                    radius as int,
                ));
            } else {
                assert forall|x: int, y: int|
                    old(self)@.in_bounds(x, y) implies !in_disc(
                    x - cx,
                    y - cy,
                    radius as int,
                ) by {
                    if in_disc(x - cx, y - cy, radius as int) {
                        lemma_disc_bounds(x - cx, y - cy, radius as int);
                    }
                }
            }
        }
    }

    /// Overwrite the cell at logical `(x, y)` and the matching pixel, and
    /// mark the grid dirty. Out-of-bounds coordinates are silently
    /// ignored: the grid, the pixel buffer and the dirty flag are left
    /// exactly as they were.
    pub fn paint_cell(&mut self, x: i32, y: i32, cell: Cell)
        requires
            old(self).wf(),
        ensures
            final(self).wf(),
            final(self)@.width == old(self)@.width,
            final(self)@.height == old(self)@.height,
            old(self)@.in_bounds(x as int, y as int) ==> {
                &&& final(self)@.cells == old(self)@.cells.update(
                    old(self)@.idx(x as int, y as int),
                    cell,
                )
                &&& final(self)@.pixel_matches(old(self)@.idx(x as int, y as int), cell.color)
                &&& final(self)@.dirty == true
            },
            !old(self)@.in_bounds(x as int, y as int) ==> final(self)@ == old(self)@,
    {
        if x >= 0 && (x as u32) < self.width && y >= 0 && (y as u32) < self.height {
            let xi = x as u32;
            let yi = y as u32;
            proof {
                lemma_idx_in_range(self@.width as int, self@.height as int, x as int, y as int);
            }
            let row = self.height - 1 - yi;
            let idx: usize = (row as usize) * (self.width as usize) + (xi as usize);
            self.cells.set(idx, cell);
            rgba_put_pixel(&mut self.pixels, xi, row, cell.color);
            self.dirty = true;
            proof {
                let v = self@;
                let i = old(self)@.idx(x as int, y as int);
                assert(idx == i);
                assert(v.cells == old(self)@.cells.update(i, cell));
                assert forall|j: int| 0 <= j < v.cells.len() implies v.pixel_matches(
                    j,
                    v.cells[j].color,
                ) by {
                    assert(old(self)@.pixel_matches(j, old(self)@.cells[j].color));
                }
            }
        }
    }
}

} // verus!
