//! Plain geometric value types: sizes, screen positions, and rectangular
//! regions of a drawing surface, together with the saturating coordinate
//! arithmetic the positioning and painting passes use.
use vstd::prelude::*;

verus! {

/// Width and height of a widget: the outcome of the layout pass for a node.
#[derive(Clone, Copy, Debug, PartialEq, Eq, Structural)]
pub struct Size {
    pub width: usize,
    pub height: usize,
}

impl Size {
    pub fn new(width: usize, height: usize) -> (s: Size)
        ensures
            s.width == width,
            s.height == height,
    {
        Size { width, height }
    }
}

/// Absolute screen coordinates assigned by the position pass. They are signed:
/// a widget may sit partly or wholly off screen while being laid out.
#[derive(Clone, Copy, Debug, PartialEq, Eq, Structural)]
pub struct Pos {
    pub x: i32,
    pub y: i32,
}

impl Pos {
    pub fn new(x: i32, y: i32) -> (p: Pos)
        ensures
            p.x == x,
            p.y == y,
    {
        Pos { x, y }
    }
}

pub open spec fn min_i(a: int, b: int) -> int {
    if a < b {
        a
    } else {
        b
    }
}

pub open spec fn max_i(a: int, b: int) -> int {
    if a > b {
        a
    } else {
        b
    }
}

/// Clamp `v` into the closed interval `[lo, hi]`; meaningful only for `lo <= hi`.
pub open spec fn clamp_i(v: int, lo: int, hi: int) -> int {
    if v < lo {
        lo
    } else if v > hi {
        hi
    } else {
        v
    }
}

/// Saturate an unbounded coordinate into the `i32` screen-coordinate range.
pub open spec fn sat_i32(v: int) -> int {
    if v > i32::MAX {
        i32::MAX as int
    } else if v < i32::MIN {
        i32::MIN as int
    } else {
        v
    }
}

pub fn min_usize(a: usize, b: usize) -> (r: usize)
    ensures
        r == min_i(a as int, b as int),
{
    if a < b {
        a
    } else {
        b
    }
}

pub fn max_usize(a: usize, b: usize) -> (r: usize)
    ensures
        r == max_i(a as int, b as int),
{
    if a > b {
        a
    } else {
        b
    }
}

pub fn clamp_usize(v: usize, lo: usize, hi: usize) -> (r: usize)
    requires
        lo <= hi,
    ensures
        r == clamp_i(v as int, lo as int, hi as int),
{
    if v < lo {
        lo
    } else if v > hi {
        hi
    } else {
        v
    }
}

/// `a + b`, saturating at `usize::MAX`.
pub fn add_sat_usize(a: usize, b: usize) -> (r: usize)
    ensures
        r == min_i(a + b, usize::MAX as int),
{
    if a > usize::MAX - b {
        usize::MAX
    } else {
        a + b
    }
}

/// `a - b`, saturating at zero.
pub fn sub_sat_usize(a: usize, b: usize) -> (r: usize)
    ensures
        r == max_i(a - b, 0),
{
    if a >= b {
        a - b
    } else {
        0
    }
}

/// Move a screen coordinate right (or down) by a non-negative offset,
/// saturating at the edge of the `i32` coordinate space.
pub fn shift_coord(base: i32, off: usize) -> (r: i32)
    ensures
        r as int == sat_i32(base + off),
{
    let off64: u64 = off as u64;
    if off64 >= 0x1_0000_0000u64 {
        i32::MAX
    } else {
        let s: i64 = base as i64 + off64 as i64;
        if s > i32::MAX as i64 {
            i32::MAX
        } else {
            s as i32
        }
    }
}

pub open spec fn pos_shift_spec(p: Pos, dx: int, dy: int) -> Pos {
    Pos { x: sat_i32(p.x + dx) as i32, y: sat_i32(p.y + dy) as i32 }
}

/// Move a position right by `dx` and down by `dy`.
pub fn pos_shift(p: Pos, dx: usize, dy: usize) -> (r: Pos)
    ensures
        r == pos_shift_spec(p, dx as int, dy as int),
{
    Pos { x: shift_coord(p.x, dx), y: shift_coord(p.y, dy) }
}

/// A rectangular portion of the compositing surface: the scoped capability a
/// paint call receives. A widget writes cells only through the region it was
/// handed; a parent derives a child's region and regains the surface when the
/// child's paint call returns.
#[derive(Clone, Copy, Debug, PartialEq, Eq, Structural)]
pub struct Region {
    pub x: i32,
    pub y: i32,
    pub width: usize,
    pub height: usize,
}

impl Region {
    /// Extents stay within the `i32` coordinate space.
    pub open spec fn wf(self) -> bool {
        self.width <= i32::MAX && self.height <= i32::MAX
    }

    pub open spec fn contains_spec(self, px: int, py: int) -> bool {
        self.x <= px < self.x + self.width && self.y <= py < self.y + self.height
    }

    pub fn contains(&self, px: i32, py: i32) -> (r: bool)
        requires
            self.wf(),
        ensures
            r == self.contains_spec(px as int, py as int),
    {
        let x0: i64 = self.x as i64;
        let y0: i64 = self.y as i64;
        let px64: i64 = px as i64;
        let py64: i64 = py as i64;
        px64 >= x0 && px64 < x0 + self.width as i64 && py64 >= y0 && py64 < y0
            + self.height as i64
    }
}

pub open spec fn region_of_spec(p: Pos, s: Size) -> Region {
    Region {
        x: p.x,
        y: p.y,
        width: min_i(s.width as int, i32::MAX as int) as usize,
        height: min_i(s.height as int, i32::MAX as int) as usize,
    }
}

/// The sub-region derivation operation: the rectangle a widget of size `s`
/// placed at `p` covers, clipped into the `i32` coordinate space.
pub fn region_of(p: Pos, s: Size) -> (r: Region)
    ensures
        r == region_of_spec(p, s),
        r.wf(),
{
    Region {
        x: p.x,
        y: p.y,
        width: min_usize(s.width, i32::MAX as usize),
        height: min_usize(s.height, i32::MAX as usize),
    }
}

pub open spec fn intersect_spec(a: Region, b: Region) -> Region {
    let x0 = max_i(a.x as int, b.x as int);
    let y0 = max_i(a.y as int, b.y as int);
    let x1 = min_i(a.x + a.width, b.x + b.width);
    let y1 = min_i(a.y + a.height, b.y + b.height);
    Region {
        x: x0 as i32,
        y: y0 as i32,
        width: max_i(x1 - x0, 0) as usize,
        height: max_i(y1 - y0, 0) as usize,
    }
}

/// The largest region lying inside both arguments.
pub fn intersect(a: Region, b: Region) -> (r: Region)
    requires
        a.wf(),
        b.wf(),
    ensures
        r == intersect_spec(a, b),
        r.wf(),
        forall|px: int, py: int|
            r.contains_spec(px, py) == (a.contains_spec(px, py) && b.contains_spec(px, py)),
{
    let x0: i32 = if a.x > b.x {
        a.x
    } else {
        b.x
    };
    let y0: i32 = if a.y > b.y {
        a.y
    } else {
        b.y
    };
    let ax1: i64 = a.x as i64 + a.width as i64;
    let bx1: i64 = b.x as i64 + b.width as i64;
    let ay1: i64 = a.y as i64 + a.height as i64;
    let by1: i64 = b.y as i64 + b.height as i64;
    let x1: i64 = if ax1 < bx1 {
        ax1
    } else {
        bx1
    };
    let y1: i64 = if ay1 < by1 {
        ay1
    } else {
        by1
    };
    let width: usize = if x1 > x0 as i64 {
        (x1 - x0 as i64) as usize
    } else {
        0
    };
    let height: usize = if y1 > y0 as i64 {
        (y1 - y0 as i64) as usize
    } else {
        0
    };
    Region { x: x0, y: y0, width, height }
}

} // verus!
