//! The paint pass: a top-down walk that draws every node onto the surface,
//! children in insertion order, each through the sub-region its parent hands
//! it. `node_writes` is the pass's contract: the exact ordered trace of cell
//! writes a subtree performs, so later siblings overwrite earlier ones
//! cell by cell. A ZStack hands every child the same sub-region; that and the
//! trace order make "the last inserted child is on top" a theorem.
use vstd::prelude::*;

use crate::geometry::{intersect, intersect_spec, region_of, region_of_spec, sat_i32, shift_coord};
use crate::geometry::{Pos, Region, Size};
use crate::surface::{
    apply_write, apply_writes, lemma_apply_writes_cell, lemma_apply_writes_concat, last_write,
    Buffer, CellWrite,
};
use crate::tree::WidgetContainer;
use crate::widgets::Widget;

verus! {

broadcast use vstd::std_specs::vec::group_vec_axioms;

/// The glyph a text widget shows at column `i`: its own character there, or a
/// blank past the end of its content.
pub open spec fn glyph_at(glyphs: Seq<char>, i: int) -> char {
    if 0 <= i < glyphs.len() {
        glyphs[i]
    } else {
        ' '
    }
}

/// The `i`th write of a horizontal run starting at `base`.
pub open spec fn hrun_write(base: Pos, i: int, g: char, r: Region) -> CellWrite {
    CellWrite {
        x: sat_i32(base.x + i),
        y: base.y as int,
        glyph: g,
        visible: r.contains_spec(sat_i32(base.x + i), base.y as int),
    }
}

/// The `i`th write of a vertical run starting at `base`.
pub open spec fn vrun_write(base: Pos, i: int, g: char, r: Region) -> CellWrite {
    CellWrite {
        x: base.x as int,
        y: sat_i32(base.y + i),
        glyph: g,
        visible: r.contains_spec(base.x as int, sat_i32(base.y + i)),
    }
}

/// A single-cell write.
pub open spec fn corner_write(p: Pos, g: char, r: Region) -> CellWrite {
    CellWrite {
        x: p.x as int,
        y: p.y as int,
        glyph: g,
        visible: r.contains_spec(p.x as int, p.y as int),
    }
}

/// What a text widget paints: its first `size.width` columns on its own row,
/// nothing at all when layout gave it no height.
pub open spec fn text_writes(glyphs: Seq<char>, size: Size, p: Pos, r: Region) -> Seq<CellWrite> {
    if size.height == 0 {
        Seq::empty()
    } else {
        Seq::new(size.width as nat, |i: int| hrun_write(p, i, glyph_at(glyphs, i), r))
    }
}

pub open spec fn hline_writes(base: Pos, len: nat, g: char, r: Region) -> Seq<CellWrite> {
    Seq::new(len, |i: int| hrun_write(base, i, g, r))
}

pub open spec fn vline_writes(base: Pos, len: nat, g: char, r: Region) -> Seq<CellWrite> {
    Seq::new(len, |i: int| vrun_write(base, i, g, r))
}

/// What a border widget paints itself: a thin frame along the edges of its
/// laid-out rectangle, or nothing when the rectangle is too small to close.
pub open spec fn border_writes(p: Pos, s: Size, r: Region) -> Seq<CellWrite> {
    if s.width < 2 || s.height < 2 {
        Seq::empty()
    } else {
        let top_right = Pos { x: sat_i32(p.x + (s.width - 1)) as i32, y: p.y };
        let bot_left = Pos { x: p.x, y: sat_i32(p.y + (s.height - 1)) as i32 };
        let bot_right = Pos { x: top_right.x, y: bot_left.y };
        let top_run = Pos { x: sat_i32(p.x + 1) as i32, y: p.y };
        let left_run = Pos { x: p.x, y: sat_i32(p.y + 1) as i32 };
        let right_run = Pos { x: top_right.x, y: left_run.y };
        let bot_run = Pos { x: top_run.x, y: bot_left.y };
        seq![corner_write(p, '┌', r)] + hline_writes(top_run, (s.width - 2) as nat, '─', r)
            + seq![corner_write(top_right, '┐', r)] + vline_writes(
            left_run,
            (s.height - 2) as nat,
            '│',
            r,
        ) + vline_writes(right_run, (s.height - 2) as nat, '│', r) + seq![
            corner_write(bot_left, '└', r),
        ] + hline_writes(bot_run, (s.width - 2) as nat, '─', r) + seq![
            corner_write(bot_right, '┘', r),
        ]
    }
}

/// What a node paints before its children: only text and border widgets draw
/// anything of their own; the containers draw nothing but their children.
pub open spec fn own_writes(n: WidgetContainer, r: Region) -> Seq<CellWrite> {
    match n.widget {
        Widget::Text(t) => text_writes(t.glyphs@, n.size, n.pos, r),
        Widget::Border(_) => border_writes(n.pos, n.size, r),
        _ => Seq::empty(),
    }
}

/// The sub-region a parent hands one child: a ZStack re-paints every child
/// into its own, same sub-region; every other widget clips the child to the
/// rectangle the child was positioned into.
pub open spec fn child_region(w: Widget, child: WidgetContainer, r: Region) -> Region {
    match w {
        Widget::ZStack(_) => r,
        _ => intersect_spec(r, region_of_spec(child.pos, child.size)),
    }
}

/// The ordered trace of cell writes painting this subtree performs: the
/// node's own glyphs first, then each child in insertion order. Later writes
/// overwrite earlier ones, so the trace order is the z-order.
pub open spec fn node_writes(n: WidgetContainer, r: Region) -> Seq<CellWrite>
    decreases n,
{
    own_writes(n, r) + children_writes(n.widget, n.children@, r)
}

pub open spec fn children_writes(w: Widget, cs: Seq<WidgetContainer>, r: Region) -> Seq<CellWrite>
    decreases cs,
{
    if cs.len() == 0 {
        Seq::empty()
    } else {
        children_writes(w, cs.drop_last(), r) + node_writes(
            cs.last(),
            child_region(w, cs.last(), r),
        )
    }
}

/// Paint a horizontal run of `len` copies of `g` starting at `base`.
fn paint_hrun(buf: &mut Buffer, r: Region, base: Pos, len: usize, g: char)
    requires
        old(buf).wf(),
        r.wf(),
    ensures
        final(buf).wf(),
        final(buf).width == old(buf).width,
        final(buf).height == old(buf).height,
        final(buf).cells@ == apply_writes(
            old(buf).cells@,
            old(buf).width as nat,
            old(buf).height as nat,
            hline_writes(base, len as nat, g, r),
        ),
{
    let ghost pre = buf.cells@;
    let ghost bw = buf.width as nat;
    let ghost bh = buf.height as nat;
    let mut i: usize = 0;
    while i < len
        invariant
            buf.wf(),
            r.wf(),
            i <= len,
            bw == buf.width as nat,
            bh == buf.height as nat,
            pre == old(buf).cells@,
            bw == old(buf).width as nat,
            bh == old(buf).height as nat,
            buf.cells@ == apply_writes(pre, bw, bh, hline_writes(base, i as nat, g, r)),
        decreases len - i,
    {
        let x = shift_coord(base.x, i);
        buf.put(r, x, base.y, g);
        proof {
            assert(hline_writes(base, (i + 1) as nat, g, r).drop_last() =~= hline_writes(
                base,
                i as nat,
                g,
                r,
            ));
            assert(hline_writes(base, (i + 1) as nat, g, r).last() == hrun_write(base, i as int, g, r));
        }
        i = i + 1;
    }
    proof {
        assert(hline_writes(base, len as nat, g, r) =~= hline_writes(base, i as nat, g, r));
    }
}

/// Paint a vertical run of `len` copies of `g` starting at `base`.
fn paint_vrun(buf: &mut Buffer, r: Region, base: Pos, len: usize, g: char)
    requires
        old(buf).wf(),
        r.wf(),
    ensures
        final(buf).wf(),
        final(buf).width == old(buf).width,
        final(buf).height == old(buf).height,
        final(buf).cells@ == apply_writes(
            old(buf).cells@,
            old(buf).width as nat,
            old(buf).height as nat,
            vline_writes(base, len as nat, g, r),
        ),
{
    let ghost pre = buf.cells@;
    let ghost bw = buf.width as nat;
    let ghost bh = buf.height as nat;
    let mut i: usize = 0;
    while i < len
        invariant
            buf.wf(),
            r.wf(),
            i <= len,
            bw == buf.width as nat,
            bh == buf.height as nat,
            pre == old(buf).cells@,
            bw == old(buf).width as nat,
            bh == old(buf).height as nat,
            buf.cells@ == apply_writes(pre, bw, bh, vline_writes(base, i as nat, g, r)),
        decreases len - i,
    {
        let y = shift_coord(base.y, i);
        buf.put(r, base.x, y, g);
        proof {
            assert(vline_writes(base, (i + 1) as nat, g, r).drop_last() =~= vline_writes(
                base,
                i as nat,
                g,
                r,
            ));
            assert(vline_writes(base, (i + 1) as nat, g, r).last() == vrun_write(base, i as int, g, r));
        }
        i = i + 1;
    }
    proof {
        assert(vline_writes(base, len as nat, g, r) =~= vline_writes(base, i as nat, g, r));
    }
}

/// Paint a text widget's single row, truncated to its laid-out width.
fn paint_text_row(buf: &mut Buffer, r: Region, glyphs: &Vec<char>, size: Size, p: Pos)
    requires
        old(buf).wf(),
        r.wf(),
    ensures
        final(buf).wf(),
        final(buf).width == old(buf).width,
        final(buf).height == old(buf).height,
        final(buf).cells@ == apply_writes(
            old(buf).cells@,
            old(buf).width as nat,
            old(buf).height as nat,
            text_writes(glyphs@, size, p, r),
        ),
{
    let ghost pre = buf.cells@;
    let ghost bw = buf.width as nat;
    let ghost bh = buf.height as nat;
    if size.height == 0 {
        return ;
    }
    let ghost full = text_writes(glyphs@, size, p, r);
    let mut i: usize = 0;
    while i < size.width
        invariant
            buf.wf(),
            r.wf(),
            i <= size.width,
            size.height != 0,
            bw == buf.width as nat,
            bh == buf.height as nat,
            pre == old(buf).cells@,
            bw == old(buf).width as nat,
            bh == old(buf).height as nat,
            full == text_writes(glyphs@, size, p, r),
            buf.cells@ == apply_writes(pre, bw, bh, full.take(i as int)),
        decreases size.width - i,
    {
        let g: char = if i < glyphs.len() {
            glyphs[i]
        } else {
            ' '
        };
        let x = shift_coord(p.x, i);
        buf.put(r, x, p.y, g);
        proof {
            assert(full.take(i + 1).drop_last() =~= full.take(i as int));
            assert(full.take(i + 1).last() == hrun_write(p, i as int, glyph_at(glyphs@, i as int), r));
            assert(g == glyph_at(glyphs@, i as int));
        }
        i = i + 1;
    }
    proof {
        assert(full.take(size.width as int) =~= full);
    }
}

/// Paint a border widget's own frame.
fn paint_border_frame(buf: &mut Buffer, r: Region, p: Pos, s: Size)
    requires
        old(buf).wf(),
        r.wf(),
    ensures
        final(buf).wf(),
        final(buf).width == old(buf).width,
        final(buf).height == old(buf).height,
        final(buf).cells@ == apply_writes(
            old(buf).cells@,
            old(buf).width as nat,
            old(buf).height as nat,
            border_writes(p, s, r),
        ),
{
    let ghost pre = buf.cells@;
    let ghost bw = buf.width as nat;
    let ghost bh = buf.height as nat;
    if s.width < 2 || s.height < 2 {
        return ;
    }
    let wlen: usize = s.width - 2;
    let hlen: usize = s.height - 2;
    let right_x: i32 = shift_coord(p.x, s.width - 1);
    let bot_y: i32 = shift_coord(p.y, s.height - 1);
    let top_run = Pos { x: shift_coord(p.x, 1), y: p.y };
    let left_run = Pos { x: p.x, y: shift_coord(p.y, 1) };
    let right_run = Pos { x: right_x, y: left_run.y };
    let bot_run = Pos { x: top_run.x, y: bot_y };
    let top_right = Pos { x: right_x, y: p.y };
    let bot_left = Pos { x: p.x, y: bot_y };
    let bot_right = Pos { x: right_x, y: bot_y };
    let ghost s1 = seq![corner_write(p, '┌', r)];
    let ghost s2 = hline_writes(top_run, wlen as nat, '─', r);
    let ghost s3 = seq![corner_write(top_right, '┐', r)];
    let ghost s4 = vline_writes(left_run, hlen as nat, '│', r);
    let ghost s5 = vline_writes(right_run, hlen as nat, '│', r);
    let ghost s6 = seq![corner_write(bot_left, '└', r)];
    let ghost s7 = hline_writes(bot_run, wlen as nat, '─', r);
    let ghost s8 = seq![corner_write(bot_right, '┘', r)];
    buf.put(r, p.x, p.y, '┌');
    proof {
        assert(s1.len() == 1);
        assert(s1.drop_last() =~= Seq::<CellWrite>::empty());
        assert(s1.last() == corner_write(p, '┌', r));
        assert(apply_writes(pre, bw, bh, s1.drop_last()) == pre);
        assert(buf.cells@ == apply_write(pre, bw, bh, corner_write(p, '┌', r)));
        assert(buf.cells@ == apply_writes(pre, bw, bh, s1));
    }
    paint_hrun(buf, r, top_run, wlen, '─');
    proof {
        lemma_apply_writes_concat(pre, bw, bh, s1, s2);
        assert(buf.cells@ == apply_writes(pre, bw, bh, s1 + s2));
    }
    let ghost snap_s3 = buf.cells@;
    buf.put(r, top_right.x, top_right.y, '┐');
    proof {
        assert(s3.len() == 1);
        assert(s3.drop_last() =~= Seq::<CellWrite>::empty());
        assert(s3.last() == corner_write(top_right, '┐', r));
        assert(apply_writes(snap_s3, bw, bh, s3.drop_last()) == snap_s3);
        assert(buf.cells@ == apply_writes(snap_s3, bw, bh, s3));
        lemma_apply_writes_concat(pre, bw, bh, s1 + s2, s3);
        assert(buf.cells@ == apply_writes(pre, bw, bh, s1 + s2 + s3));
    }
    paint_vrun(buf, r, left_run, hlen, '│');
    proof {
        lemma_apply_writes_concat(pre, bw, bh, s1 + s2 + s3, s4);
        assert(buf.cells@ == apply_writes(pre, bw, bh, s1 + s2 + s3 + s4));
    }
    paint_vrun(buf, r, right_run, hlen, '│');
    proof {
        lemma_apply_writes_concat(pre, bw, bh, s1 + s2 + s3 + s4, s5);
        assert(buf.cells@ == apply_writes(pre, bw, bh, s1 + s2 + s3 + s4 + s5));
    }
    let ghost snap_s6 = buf.cells@;
    buf.put(r, bot_left.x, bot_left.y, '└');
    proof {
        assert(s6.len() == 1);
        assert(s6.drop_last() =~= Seq::<CellWrite>::empty());
        assert(s6.last() == corner_write(bot_left, '└', r));
        assert(apply_writes(snap_s6, bw, bh, s6.drop_last()) == snap_s6);
        assert(buf.cells@ == apply_writes(snap_s6, bw, bh, s6));
        lemma_apply_writes_concat(pre, bw, bh, s1 + s2 + s3 + s4 + s5, s6);
        assert(buf.cells@ == apply_writes(pre, bw, bh, s1 + s2 + s3 + s4 + s5 + s6));
    }
    paint_hrun(buf, r, bot_run, wlen, '─');
    proof {
        lemma_apply_writes_concat(pre, bw, bh, s1 + s2 + s3 + s4 + s5 + s6, s7);
        assert(buf.cells@ == apply_writes(pre, bw, bh, s1 + s2 + s3 + s4 + s5 + s6 + s7));
    }
    let ghost snap_s8 = buf.cells@;
    buf.put(r, bot_right.x, bot_right.y, '┘');
    proof {
        assert(s8.len() == 1);
        assert(s8.drop_last() =~= Seq::<CellWrite>::empty());
        assert(s8.last() == corner_write(bot_right, '┘', r));
        assert(apply_writes(snap_s8, bw, bh, s8.drop_last()) == snap_s8);
        assert(buf.cells@ == apply_writes(snap_s8, bw, bh, s8));
        lemma_apply_writes_concat(pre, bw, bh, s1 + s2 + s3 + s4 + s5 + s6 + s7, s8);
        assert(buf.cells@ == apply_writes(pre, bw, bh, s1 + s2 + s3 + s4 + s5 + s6 + s7 + s8));
        assert(border_writes(p, s, r) == s1 + s2 + s3 + s4 + s5 + s6 + s7 + s8);
    }
}

impl WidgetContainer {
    /// The paint pass for this subtree: draw this node's own glyphs, then its
    /// children in insertion order, each through the sub-region this node
    /// derives for it. The whole effect on the surface is exactly the trace
    /// `node_writes` describes.
    pub fn paint(&self, buf: &mut Buffer, r: Region)
        requires
            old(buf).wf(),
            r.wf(),
        ensures
            final(buf).wf(),
            final(buf).width == old(buf).width,
            final(buf).height == old(buf).height,
            final(buf).cells@ == apply_writes(
                old(buf).cells@,
                old(buf).width as nat,
                old(buf).height as nat,
                node_writes(*self, r),
            ),
        decreases *self,
    {
        let ghost pre = buf.cells@;
        let ghost bw = buf.width as nat;
        let ghost bh = buf.height as nat;
        match &self.widget {
            Widget::Text(t) => {
                paint_text_row(buf, r, &t.glyphs, self.size, self.pos);
            },
            Widget::Border(_) => {
                paint_border_frame(buf, r, self.pos, self.size);
            },
            _ => {
            },
        }
        proof {
            assert(buf.cells@ == apply_writes(pre, bw, bh, own_writes(*self, r)));
        }
        let n = self.children.len();
        let mut i: usize = 0;
        while i < n
            invariant
                buf.wf(),
                r.wf(),
                i <= n,
                n == self.children@.len(),
                bw == buf.width as nat,
                bh == buf.height as nat,
                pre == old(buf).cells@,
                bw == old(buf).width as nat,
                bh == old(buf).height as nat,
                buf.cells@ == apply_writes(
                    pre,
                    bw,
                    bh,
                    own_writes(*self, r) + children_writes(
                        self.widget,
                        self.children@.take(i as int),
                        r,
                    ),
                ),
            decreases n - i,
        {
            let child = &self.children[i];
            let cr: Region = match &self.widget {
                Widget::ZStack(_) => r,
                _ => intersect(r, region_of(child.pos, child.size)),
            };
            proof {
                assert(cr == child_region(self.widget, self.children@[i as int], r));
                assert(decreases_to!(*self => self.children));
                assert(decreases_to!(self.children => self.children[i as int]));
            }
            child.paint(buf, cr);
            proof {
                let ghost own = own_writes(*self, r);
                let ghost head = children_writes(self.widget, self.children@.take(i as int), r);
                let ghost cw = node_writes(self.children@[i as int], cr);
                lemma_apply_writes_concat(pre, bw, bh, own + head, cw);
                assert(self.children@.take(i + 1).drop_last() =~= self.children@.take(i as int));
                assert(self.children@.take(i + 1).last() == self.children@[i as int]);
                assert(children_writes(self.widget, self.children@.take(i + 1), r) == head + cw);
                assert((own + head) + cw =~= own + (head + cw));
            }
            i = i + 1;
        }
        proof {
            assert(self.children@.take(n as int) =~= self.children@);
        }
    }
}

/// Paint-order determinism for ZStack: its children all paint into the same
/// sub-region, in insertion order, so at any cell the glyph of the
/// last-inserted child that writes that cell is what remains visible —
/// whatever its earlier siblings put there.
pub proof fn lemma_zstack_last_child_wins(
    n: WidgetContainer,
    r: Region,
    cells: Seq<char>,
    w: nat,
    h: nat,
    x: int,
    y: int,
    g: char,
)
    requires
        n.widget is ZStack,
        n.children@.len() > 0,
        cells.len() == w * h,
        0 <= x < w,
        0 <= y < h,
        last_write(node_writes(n.children@.last(), r), x, y) == Some(g),
    ensures
        apply_writes(cells, w, h, node_writes(n, r))[y * w + x] == g,
{
    let cs = n.children@;
    let head = children_writes(n.widget, cs.drop_last(), r);
    let tail = node_writes(cs.last(), r);
    assert(child_region(n.widget, cs.last(), r) == r);
    assert(own_writes(n, r) =~= Seq::<CellWrite>::empty());
    assert(node_writes(n, r) =~= head + tail);
    lemma_last_write_concat(head, tail, x, y);
    assert(last_write(node_writes(n, r), x, y) == Some(g));
    lemma_apply_writes_cell(cells, w, h, node_writes(n, r), x, y);
}

/// The latest write in a concatenated trace is the latest write of the later
/// part, or of the earlier part where the later part never touches the cell.
pub proof fn lemma_last_write_concat(a: Seq<CellWrite>, b: Seq<CellWrite>, x: int, y: int)
    ensures
        last_write(a + b, x, y) == if last_write(b, x, y) is Some {
            last_write(b, x, y)
        } else {
            last_write(a, x, y)
        },
    decreases b.len(),
{
    if b.len() == 0 {
        assert(a + b =~= a);
    } else {
        lemma_last_write_concat(a, b.drop_last(), x, y);
        assert((a + b).drop_last() =~= a + b.drop_last());
        assert((a + b).last() == b.last());
    }
}

} // verus!
