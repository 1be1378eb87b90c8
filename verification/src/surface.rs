//! The compositing surface: a rectangular grid of glyph cells, and the
//! write-trace semantics the paint pass is specified against. A paint call's
//! effect is the ordered sequence of cell writes it performs; applying that
//! sequence front to back to the buffer is exactly what the exec code does,
//! so at any cell the last write in the trace wins.
use vstd::prelude::*;

use crate::geometry::Region;

verus! {

broadcast use vstd::std_specs::vec::group_vec_axioms;

/// One recorded cell write of the paint pass: target coordinates, the glyph,
/// and whether the write fell inside the region its widget was handed. A
/// write outside its region or outside the buffer changes nothing.
pub ghost struct CellWrite {
    pub x: int,
    pub y: int,
    pub glyph: char,
    pub visible: bool,
}

pub open spec fn apply_write(cells: Seq<char>, w: nat, h: nat, cw: CellWrite) -> Seq<char> {
    if cw.visible && 0 <= cw.x < w && 0 <= cw.y < h {
        cells.update(cw.y * w + cw.x, cw.glyph)
    } else {
        cells
    }
}

/// Apply a trace of writes in order, earliest first.
pub open spec fn apply_writes(cells: Seq<char>, w: nat, h: nat, ws: Seq<CellWrite>) -> Seq<char>
    decreases ws.len(),
{
    if ws.len() == 0 {
        cells
    } else {
        apply_write(apply_writes(cells, w, h, ws.drop_last()), w, h, ws.last())
    }
}

/// The glyph of the latest write in `ws` that targets cell `(x, y)` and fell
/// inside its region, if any.
pub open spec fn last_write(ws: Seq<CellWrite>, x: int, y: int) -> Option<char>
    decreases ws.len(),
{
    if ws.len() == 0 {
        None
    } else if ws.last().visible && ws.last().x == x && ws.last().y == y {
        Some(ws.last().glyph)
    } else {
        last_write(ws.drop_last(), x, y)
    }
}

pub proof fn lemma_cell_index_in_range(w: nat, h: nat, x: int, y: int)
    requires
        0 <= x < w,
        0 <= y < h,
    ensures
        0 <= y * w + x,
        y * w + x < w * h,
{
    assert(0 <= y * w + x && y * w + x < w * h) by (nonlinear_arith)
        requires
            0 <= x < w,
            0 <= y < h,
    ;
}

pub proof fn lemma_cell_index_injective(w: nat, x1: int, y1: int, x2: int, y2: int)
    requires
        0 <= x1 < w,
        0 <= x2 < w,
    ensures
        y1 * w + x1 == y2 * w + x2 ==> (x1 == x2 && y1 == y2),
{
    assert(y1 * w + x1 == y2 * w + x2 ==> (x1 == x2 && y1 == y2)) by (nonlinear_arith)
        requires
            0 <= x1 < w,
            0 <= x2 < w,
    ;
}

/// Applying a trace never changes the buffer's length.
pub proof fn lemma_apply_writes_len(cells: Seq<char>, w: nat, h: nat, ws: Seq<CellWrite>)
    requires
        cells.len() == w * h,
    ensures
        apply_writes(cells, w, h, ws).len() == cells.len(),
    decreases ws.len(),
{
    if ws.len() > 0 {
        lemma_apply_writes_len(cells, w, h, ws.drop_last());
        let cw = ws.last();
        if cw.visible && 0 <= cw.x < w && 0 <= cw.y < h {
            lemma_cell_index_in_range(w, h, cw.x, cw.y);
        }
    }
}

/// Traces compose: painting one trace after another is painting their
/// concatenation.
pub proof fn lemma_apply_writes_concat(
    cells: Seq<char>,
    w: nat,
    h: nat,
    a: Seq<CellWrite>,
    b: Seq<CellWrite>,
)
    ensures
        apply_writes(cells, w, h, a + b) == apply_writes(apply_writes(cells, w, h, a), w, h, b),
    decreases b.len(),
{
    if b.len() == 0 {
        assert(a + b =~= a);
    } else {
        lemma_apply_writes_concat(cells, w, h, a, b.drop_last());
        assert((a + b).drop_last() =~= a + b.drop_last());
        assert((a + b).last() == b.last());
    }
}

/// At any in-range cell the buffer after a trace shows the glyph of the last
/// visible write to that cell, or its old content if the trace never touched
/// it.
pub proof fn lemma_apply_writes_cell(
    cells: Seq<char>,
    w: nat,
    h: nat,
    ws: Seq<CellWrite>,
    x: int,
    y: int,
)
    requires
        cells.len() == w * h,
        0 <= x < w,
        0 <= y < h,
    ensures
        forall|g: char|
            last_write(ws, x, y) == Some(g) ==> apply_writes(cells, w, h, ws)[y * w + x] == g,
        last_write(ws, x, y) is None ==> apply_writes(cells, w, h, ws)[y * w + x] == cells[y * w
            + x],
    decreases ws.len(),
{
    lemma_cell_index_in_range(w, h, x, y);
    if ws.len() > 0 {
        lemma_apply_writes_cell(cells, w, h, ws.drop_last(), x, y);
        lemma_apply_writes_len(cells, w, h, ws.drop_last());
        let cw = ws.last();
        if cw.visible && 0 <= cw.x < w && 0 <= cw.y < h {
            lemma_cell_index_in_range(w, h, cw.x, cw.y);
            lemma_cell_index_injective(w, cw.x, cw.y, x, y);
        }
    }
}

/// The drawing target: a `width` by `height` grid of glyph cells stored row
/// by row.
#[derive(Debug)]
pub struct Buffer {
    pub width: usize,
    pub height: usize,
    pub cells: Vec<char>,
}

impl Buffer {
    /// The cell store matches the dimensions, and both extents stay within
    /// the `i32` screen-coordinate space.
    pub open spec fn wf(self) -> bool {
        &&& self.cells@.len() == self.width * self.height
        &&& self.width <= i32::MAX
        &&& self.height <= i32::MAX
    }

    /// A fresh surface with every cell holding `fill`.
    pub fn new(width: usize, height: usize, fill: char) -> (b: Buffer)
        requires
            width * height <= usize::MAX,
            width <= i32::MAX,
            height <= i32::MAX,
        ensures
            b.wf(),
            b.width == width,
            b.height == height,
            b.cells@ == Seq::new((width * height) as nat, |i: int| fill),
    {
        proof {
            assert(width * height >= 0) by (nonlinear_arith);
        }
        let n: usize = width * height;
        let cells: Vec<char> = vec![fill; n];
        Buffer { width, height, cells }
    }

    /// The region covering the whole surface: the capability handed to the
    /// root widget's paint call.
    pub fn full_region(&self) -> (r: Region)
        requires
            self.wf(),
        ensures
            r == (Region { x: 0, y: 0, width: self.width, height: self.height }),
            r.wf(),
    {
        Region { x: 0, y: 0, width: self.width, height: self.height }
    }

    /// The cell-write operation: write `glyph` at `(x, y)` if that cell lies
    /// inside the handed region and inside the surface; otherwise change
    /// nothing.
    pub fn put(&mut self, region: Region, x: i32, y: i32, glyph: char)
        requires
            old(self).wf(),
            region.wf(),
        ensures
            final(self).wf(),
            final(self).width == old(self).width,
            final(self).height == old(self).height,
            final(self).cells@ == apply_write(
                old(self).cells@,
                old(self).width as nat,
                old(self).height as nat,
                (CellWrite {
                    x: x as int,
                    y: y as int,
                    glyph,
                    visible: region.contains_spec(x as int, y as int),
                }),
            ),
    {
        let visible = region.contains(x, y);
        if visible && x >= 0 && y >= 0 && (x as usize) < self.width && (y as usize) < self.height {
            let len = self.cells.len();
            proof {
                lemma_cell_index_in_range(
                    self.width as nat,
                    self.height as nat,
                    x as int,
                    y as int,
                );
                assert(self.cells@.len() <= usize::MAX);
            }
            let idx: usize = (y as usize) * self.width + (x as usize);
            self.cells[idx] = glyph;
        }
    }

    /// Read one cell.
    pub fn get(&self, x: usize, y: usize) -> (c: char)
        requires
            self.wf(),
            x < self.width,
            y < self.height,
        ensures
            c == self.cells@[y * self.width + x],
    {
        let len = self.cells.len();
        proof {
            lemma_cell_index_in_range(self.width as nat, self.height as nat, x as int, y as int);
            assert(self.cells@.len() <= usize::MAX);
        }
        let idx: usize = y * self.width + x;
        self.cells[idx]
    }

    /// Copy one row of the surface out, left to right.
    pub fn row(&self, y: usize) -> (r: Vec<char>)
        requires
            self.wf(),
            y < self.height,
        ensures
            r@.len() == self.width,
            forall|i: int| 0 <= i < self.width ==> r@[i] == self.cells@[y * self.width + i],
    {
        let mut out: Vec<char> = Vec::new();
        let mut x: usize = 0;
        while x < self.width
            invariant
                self.wf(),
                y < self.height,
                x <= self.width,
                out@.len() == x,
                forall|i: int| 0 <= i < x ==> out@[i] == self.cells@[y * self.width + i],
            decreases self.width - x,
        {
            let c = self.get(x, y);
            out.push(c);
            x = x + 1;
        }
        out
    }
}

} // verus!
