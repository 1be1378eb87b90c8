//! The widget tree and its layout pass. A node owns a widget, an ordered
//! children list, and the transient geometry (size, position) the passes of
//! the current frame compute. `laid_out` is the layout pass's contract: it
//! relates a laid-out subtree to the constraints it was laid out under and
//! pins every size in the subtree down.
use vstd::prelude::*;

use crate::constraints::Constraints;
use crate::geometry::{clamp_i, max_i, min_i, Pos, Size};
use crate::geometry::{add_sat_usize, clamp_usize, max_usize, min_usize, sub_sat_usize};
use crate::widgets::Widget;

verus! {

broadcast use vstd::std_specs::vec::group_vec_axioms;

/// A node of the runtime widget tree: the widget instance, its children in
/// insertion order (which is also paint order), and the geometry computed for
/// the current frame.
#[derive(Debug)]
pub struct WidgetContainer {
    pub widget: Widget,
    pub children: Vec<WidgetContainer>,
    /// Set by the layout pass.
    pub size: Size,
    /// Set by the position pass.
    pub pos: Pos,
}

impl WidgetContainer {
    /// A fresh node with no children and zeroed geometry.
    pub fn new(widget: Widget) -> (n: WidgetContainer)
        ensures
            n.widget == widget,
            n.children@.len() == 0,
            n.size == (Size { width: 0, height: 0 }),
            n.pos == (Pos { x: 0, y: 0 }),
    {
        WidgetContainer {
            widget,
            children: Vec::new(),
            size: Size { width: 0, height: 0 },
            pos: Pos { x: 0, y: 0 },
        }
    }

    /// Append a child; children keep their insertion order through every pass.
    pub fn add_child(&mut self, child: WidgetContainer)
        ensures
            final(self).widget == old(self).widget,
            final(self).size == old(self).size,
            final(self).pos == old(self).pos,
            final(self).children@ == old(self).children@.push(child),
    {
        self.children.push(child);
    }
}

/// Sum of the laid-out widths of a sequence of siblings.
pub open spec fn widths_sum(cs: Seq<WidgetContainer>) -> int
    decreases cs.len(),
{
    if cs.len() == 0 {
        0
    } else {
        widths_sum(cs.drop_last()) + cs.last().size.width
    }
}

/// Sum of the laid-out heights of a sequence of siblings.
pub open spec fn heights_sum(cs: Seq<WidgetContainer>) -> int
    decreases cs.len(),
{
    if cs.len() == 0 {
        0
    } else {
        heights_sum(cs.drop_last()) + cs.last().size.height
    }
}

/// Largest laid-out width among a sequence of siblings (zero when empty).
pub open spec fn widths_max(cs: Seq<WidgetContainer>) -> int
    decreases cs.len(),
{
    if cs.len() == 0 {
        0
    } else {
        max_i(widths_max(cs.drop_last()), cs.last().size.width as int)
    }
}

/// Largest laid-out height among a sequence of siblings (zero when empty).
pub open spec fn heights_max(cs: Seq<WidgetContainer>) -> int
    decreases cs.len(),
{
    if cs.len() == 0 {
        0
    } else {
        max_i(heights_max(cs.drop_last()), cs.last().size.height as int)
    }
}

/// Two trees have the same widgets and the same child structure; only the
/// computed geometry may differ. The layout and position passes never change
/// a tree's shape.
pub open spec fn same_shape(a: WidgetContainer, b: WidgetContainer) -> bool
    decreases a,
{
    a.widget == b.widget && same_shape_children(a.children@, b.children@)
}

pub open spec fn same_shape_children(xs: Seq<WidgetContainer>, ys: Seq<WidgetContainer>) -> bool
    decreases xs,
{
    &&& ys.len() == xs.len()
    &&& if xs.len() == 0 {
        true
    } else {
        same_shape_children(xs.drop_last(), ys.drop_last()) && same_shape(xs.last(), ys.last())
    }
}

pub proof fn lemma_same_shape_refl(a: WidgetContainer)
    ensures
        same_shape(a, a),
    decreases a,
{
    lemma_same_shape_children_refl(a.children@);
}

pub proof fn lemma_same_shape_children_refl(xs: Seq<WidgetContainer>)
    ensures
        same_shape_children(xs, xs),
    decreases xs,
{
    if xs.len() > 0 {
        lemma_same_shape_children_refl(xs.drop_last());
        lemma_same_shape_refl(xs.last());
    }
}

/// The constraints a container built from declared sizing attributes hands to
/// its stacking strategy: declared fixed sizes tighten the maxima, declared
/// minimums raise the floors.
pub open spec fn stack_sized(
    c: Constraints,
    width: Option<usize>,
    height: Option<usize>,
    min_width: Option<usize>,
    min_height: Option<usize>,
) -> Constraints {
    let c1 = match width {
        Some(w) => c.tighten_max_width_spec(w as int),
        None => c,
    };
    let c2 = match height {
        Some(h) => c1.tighten_max_height_spec(h as int),
        None => c1,
    };
    let c3 = match min_width {
        Some(w) => c2.raise_min_width_spec(w as int),
        None => c2,
    };
    match min_height {
        Some(h) => c3.raise_min_height_spec(h as int),
        None => c3,
    }
}

/// Apply a container's declared sizing attributes to the constraints it was
/// handed, yielding the constraints its stacking strategy works with.
pub fn apply_stack_sizing(
    c: Constraints,
    width: Option<usize>,
    height: Option<usize>,
    min_width: Option<usize>,
    min_height: Option<usize>,
) -> (tc: Constraints)
    requires
        c.wf(),
    ensures
        tc == stack_sized(c, width, height, min_width, min_height),
        tc.wf(),
{
    let mut out = c;
    if let Some(w) = width {
        out.make_width_tight(w);
    }
    if let Some(h) = height {
        out.make_height_tight(h);
    }
    if let Some(w) = min_width {
        out.raise_min_width(w);
    }
    if let Some(h) = min_height {
        out.raise_min_height(h);
    }
    out
}

/// The constraints the horizontal strategy hands the next child once `consumed`
/// columns of the budget are spent: the remaining width, the full height.
pub open spec fn hchild_constraints(tc: Constraints, consumed: int) -> Constraints {
    Constraints {
        min_width: 0,
        max_width: if consumed >= tc.max_width {
            0
        } else {
            (tc.max_width - consumed) as usize
        },
        min_height: 0,
        max_height: tc.max_height,
    }
}

/// The vertical analogue of `hchild_constraints`.
pub open spec fn vchild_constraints(tc: Constraints, consumed: int) -> Constraints {
    Constraints {
        min_width: 0,
        max_width: tc.max_width,
        min_height: 0,
        max_height: if consumed >= tc.max_height {
            0
        } else {
            (tc.max_height - consumed) as usize
        },
    }
}

/// The constraints a border hands its children: its own, shrunk by one cell
/// on every side.
pub open spec fn border_inner(c: Constraints) -> Constraints {
    Constraints {
        min_width: 0,
        max_width: max_i(c.max_width - 2, 0) as usize,
        min_height: 0,
        max_height: max_i(c.max_height - 2, 0) as usize,
    }
}

/// The constraints an offset widget hands its children: its own, shrunk by
/// the offsets.
pub open spec fn offset_inner(c: Constraints, left: int, top: int) -> Constraints {
    Constraints {
        min_width: 0,
        max_width: max_i(c.max_width - left, 0) as usize,
        min_height: 0,
        max_height: max_i(c.max_height - top, 0) as usize,
    }
}

/// The layout pass's contract, as a relation between a laid-out subtree and
/// the constraints it was laid out under. Given the tree's shape it
/// determines every size in the subtree.
pub open spec fn laid_out(n: WidgetContainer, c: Constraints) -> bool
    decreases n,
{
    match n.widget {
        Widget::Text(t) => {
            &&& n.size.width == min_i(t.glyphs@.len() as int, c.max_width as int)
            &&& n.size.height == min_i(1, c.max_height as int)
        },
        Widget::Border(_) => {
            &&& children_laid_out_same(n.children@, border_inner(c))
            &&& n.size.width == clamp_i(
                widths_max(n.children@) + 2,
                c.min_width as int,
                c.max_width as int,
            )
            &&& n.size.height == clamp_i(
                heights_max(n.children@) + 2,
                c.min_height as int,
                c.max_height as int,
            )
        },
        Widget::Expand(_) => {
            &&& children_laid_out_same(n.children@, c)
            &&& n.size.width == c.max_width
            &&& n.size.height == c.max_height
        },
        Widget::Offset(o) => {
            &&& children_laid_out_same(n.children@, offset_inner(c, o.left as int, o.top as int))
            &&& n.size.width == clamp_i(
                widths_max(n.children@) + o.left,
                c.min_width as int,
                c.max_width as int,
            )
            &&& n.size.height == clamp_i(
                heights_max(n.children@) + o.top,
                c.min_height as int,
                c.max_height as int,
            )
        },
        Widget::HStack(h) => {
            let tc = stack_sized(c, h.width, h.height, h.min_width, h.min_height);
            &&& children_laid_out_hbudget(n.children@, tc)
            &&& n.size.width == clamp_i(
                widths_sum(n.children@),
                tc.min_width as int,
                tc.max_width as int,
            )
            &&& n.size.height == clamp_i(
                heights_max(n.children@),
                tc.min_height as int,
                tc.max_height as int,
            )
        },
        Widget::VStack(v) => {
            let tc = stack_sized(c, v.width, v.height, v.min_width, v.min_height);
            &&& children_laid_out_vbudget(n.children@, tc)
            &&& n.size.width == clamp_i(
                widths_max(n.children@),
                tc.min_width as int,
                tc.max_width as int,
            )
            &&& n.size.height == clamp_i(
                heights_sum(n.children@),
                tc.min_height as int,
                tc.max_height as int,
            )
        },
        Widget::ZStack(z) => {
            let tc = stack_sized(c, z.width, z.height, z.min_width, z.min_height);
            &&& children_laid_out_same(n.children@, tc)
            &&& n.size.width == clamp_i(
                widths_max(n.children@),
                tc.min_width as int,
                tc.max_width as int,
            )
            &&& n.size.height == clamp_i(
                heights_max(n.children@),
                tc.min_height as int,
                tc.max_height as int,
            )
        },
    }
}

/// Every sibling was laid out under the same, full constraints `cc` — the
/// stacked strategy's discipline.
pub open spec fn children_laid_out_same(cs: Seq<WidgetContainer>, cc: Constraints) -> bool
    decreases cs,
{
    if cs.len() == 0 {
        true
    } else {
        children_laid_out_same(cs.drop_last(), cc) && laid_out(cs.last(), cc)
    }
}

/// Each sibling was laid out under the width budget its earlier siblings left
/// over — the horizontal strategy's discipline.
pub open spec fn children_laid_out_hbudget(cs: Seq<WidgetContainer>, tc: Constraints) -> bool
    decreases cs,
{
    if cs.len() == 0 {
        true
    } else {
        children_laid_out_hbudget(cs.drop_last(), tc) && laid_out(
            cs.last(),
            hchild_constraints(tc, widths_sum(cs.drop_last())),
        )
    }
}

/// The vertical analogue of `children_laid_out_hbudget`.
pub open spec fn children_laid_out_vbudget(cs: Seq<WidgetContainer>, tc: Constraints) -> bool
    decreases cs,
{
    if cs.len() == 0 {
        true
    } else {
        children_laid_out_vbudget(cs.drop_last(), tc) && laid_out(
            cs.last(),
            vchild_constraints(tc, heights_sum(cs.drop_last())),
        )
    }
}

/// The order in which a directional strategy walks its children: `Forward`
/// allocates the budget left to right (top to bottom), `Backward` from the
/// other end, for right-to-left stacking.
#[derive(Clone, Copy, Debug, PartialEq, Eq, Structural)]
pub enum Direction {
    Forward,
    Backward,
}

/// The reverse-direction analogue of `children_laid_out_hbudget`: each
/// sibling was laid out under the width budget its *later* siblings left
/// over.
pub open spec fn children_laid_out_hbudget_rev(cs: Seq<WidgetContainer>, tc: Constraints) -> bool
    decreases cs,
{
    if cs.len() == 0 {
        true
    } else {
        children_laid_out_hbudget_rev(cs.drop_first(), tc) && laid_out(
            cs.first(),
            hchild_constraints(tc, widths_sum(cs.drop_first())),
        )
    }
}

/// The reverse-direction analogue of `children_laid_out_vbudget`.
pub open spec fn children_laid_out_vbudget_rev(cs: Seq<WidgetContainer>, tc: Constraints) -> bool
    decreases cs,
{
    if cs.len() == 0 {
        true
    } else {
        children_laid_out_vbudget_rev(cs.drop_first(), tc) && laid_out(
            cs.first(),
            vchild_constraints(tc, heights_sum(cs.drop_first())),
        )
    }
}

/// The sibling aggregates can also be peeled off at the front.
pub proof fn lemma_aggregates_first(cs: Seq<WidgetContainer>)
    requires
        cs.len() > 0,
    ensures
        widths_sum(cs) == cs.first().size.width + widths_sum(cs.drop_first()),
        heights_sum(cs) == cs.first().size.height + heights_sum(cs.drop_first()),
        widths_max(cs) == max_i(cs.first().size.width as int, widths_max(cs.drop_first())),
        heights_max(cs) == max_i(cs.first().size.height as int, heights_max(cs.drop_first())),
    decreases cs.len(),
{
    if cs.len() == 1 {
        assert(cs.drop_first() =~= Seq::<WidgetContainer>::empty());
        assert(cs.drop_last() =~= Seq::<WidgetContainer>::empty());
    } else {
        lemma_aggregates_first(cs.drop_last());
        assert(cs.drop_last().drop_first() =~= cs.drop_first().drop_last());
        assert(cs.drop_last().first() == cs.first());
        assert(cs.drop_first().last() == cs.last());
    }
}

/// Element-wise shape agreement gives shape agreement of the sequences.
pub proof fn lemma_same_shape_children_pointwise(
    xs: Seq<WidgetContainer>,
    ys: Seq<WidgetContainer>,
)
    requires
        ys.len() == xs.len(),
        forall|j: int| 0 <= j < xs.len() ==> same_shape(#[trigger] xs[j], ys[j]),
    ensures
        same_shape_children(xs, ys),
    decreases xs.len(),
{
    if xs.len() > 0 {
        lemma_same_shape_children_pointwise(xs.drop_last(), ys.drop_last());
    }
}

/// Lay every child out under the same, full constraints `cc` and report the
/// component-wise maximum of their sizes, not yet clamped into bounds. Used
/// by ZStack and by the wrapper widgets that lay their children out
/// independently.
pub fn layout_stacked(children: &mut Vec<WidgetContainer>, cc: Constraints) -> (raw: Size)
    requires
        cc.wf(),
    ensures
        final(children)@.len() == old(children)@.len(),
        same_shape_children(old(children)@, final(children)@),
        children_laid_out_same(final(children)@, cc),
        raw.width == widths_max(final(children)@),
        raw.height == heights_max(final(children)@),
    decreases *old(children),
{
    let ghost pre = *old(children);
    let mut widest: usize = 0;
    let mut tallest: usize = 0;
    let n = children.len();
    let mut i: usize = 0;
    while i < n
        invariant
            cc.wf(),
            i <= n,
            n == children@.len(),
            n == pre@.len(),
            pre == *old(children),
            forall|j: int| i <= j < n ==> children@[j] == pre@[j],
            same_shape_children(pre@.take(i as int), children@.take(i as int)),
            children_laid_out_same(children@.take(i as int), cc),
            widest == widths_max(children@.take(i as int)),
            tallest == heights_max(children@.take(i as int)),
        decreases n - i,
    {
        let ghost cs0 = children@;
        proof {
            assert(decreases_to!(pre => pre[i as int]));
        }
        let s = children[i].layout(cc);
        proof {
            assert(children@.take(i as int) =~= cs0.take(i as int));
            assert(pre@.take(i + 1).drop_last() =~= pre@.take(i as int));
            assert(children@.take(i + 1).drop_last() =~= children@.take(i as int));
            assert(children@.take(i + 1).last() == children@[i as int]);
            assert(pre@.take(i + 1).last() == pre@[i as int]);
        }
        widest = max_usize(widest, s.width);
        tallest = max_usize(tallest, s.height);
        i = i + 1;
    }
    proof {
        assert(children@.take(n as int) =~= children@);
        assert(pre@.take(n as int) =~= pre@);
    }
    Size { width: widest, height: tallest }
}

/// Lay children out along the width axis, handing each the width its
/// predecessors in walk order left over; `Forward` walks left to right,
/// `Backward` right to left. Once the budget is spent, later children get a
/// zero width budget and report degenerate sizes. Returns the accumulated
/// extent (total width, tallest child), not yet clamped into bounds.
pub fn layout_horizontal(
    children: &mut Vec<WidgetContainer>,
    tc: Constraints,
    dir: Direction,
) -> (raw: Size)
    requires
        tc.wf(),
    ensures
        final(children)@.len() == old(children)@.len(),
        same_shape_children(old(children)@, final(children)@),
        (dir is Forward ==> children_laid_out_hbudget(final(children)@, tc)),
        (dir is Backward ==> children_laid_out_hbudget_rev(final(children)@, tc)),
        raw.width == min_i(widths_sum(final(children)@), usize::MAX as int),
        raw.height == heights_max(final(children)@),
    decreases *old(children),
{
    let ghost pre = *old(children);
    let mut consumed: usize = 0;
    let mut tallest: usize = 0;
    let n = children.len();
    match dir {
        Direction::Forward => {
            let mut i: usize = 0;
            while i < n
                invariant
                    tc.wf(),
                    i <= n,
                    n == children@.len(),
                    n == pre@.len(),
                    pre == *old(children),
                    forall|j: int| i <= j < n ==> children@[j] == pre@[j],
                    same_shape_children(pre@.take(i as int), children@.take(i as int)),
                    children_laid_out_hbudget(children@.take(i as int), tc),
                    consumed == min_i(widths_sum(children@.take(i as int)), usize::MAX as int),
                    tallest == heights_max(children@.take(i as int)),
                decreases n - i,
            {
                let ghost cs0 = children@;
                let rem: usize = if consumed >= tc.max_width {
                    0
                } else {
                    tc.max_width - consumed
                };
                let cc = Constraints {
                    min_width: 0,
                    max_width: rem,
                    min_height: 0,
                    max_height: tc.max_height,
                };
                proof {
                    assert(decreases_to!(pre => pre[i as int]));
                    assert(cc == hchild_constraints(tc, widths_sum(children@.take(i as int))));
                }
                let s = children[i].layout(cc);
                proof {
                    assert(children@.take(i as int) =~= cs0.take(i as int));
                    assert(pre@.take(i + 1).drop_last() =~= pre@.take(i as int));
                    assert(children@.take(i + 1).drop_last() =~= children@.take(i as int));
                    assert(children@.take(i + 1).last() == children@[i as int]);
                    assert(pre@.take(i + 1).last() == pre@[i as int]);
                }
                consumed = add_sat_usize(consumed, s.width);
                tallest = max_usize(tallest, s.height);
                i = i + 1;
            }
            proof {
                assert(children@.take(n as int) =~= children@);
                assert(pre@.take(n as int) =~= pre@);
            }
        },
        Direction::Backward => {
            let mut i: usize = n;
            while i > 0
                invariant
                    tc.wf(),
                    i <= n,
                    n == children@.len(),
                    n == pre@.len(),
                    pre == *old(children),
                    forall|j: int| 0 <= j < i ==> children@[j] == pre@[j],
                    forall|j: int| i <= j < n ==> same_shape(#[trigger] pre@[j], children@[j]),
                    children_laid_out_hbudget_rev(children@.skip(i as int), tc),
                    consumed == min_i(widths_sum(children@.skip(i as int)), usize::MAX as int),
                    tallest == heights_max(children@.skip(i as int)),
                decreases i,
            {
                let idx = i - 1;
                let ghost cs0 = children@;
                let rem: usize = if consumed >= tc.max_width {
                    0
                } else {
                    tc.max_width - consumed
                };
                let cc = Constraints {
                    min_width: 0,
                    max_width: rem,
                    min_height: 0,
                    max_height: tc.max_height,
                };
                proof {
                    assert(decreases_to!(pre => pre[idx as int]));
                    assert(cc == hchild_constraints(tc, widths_sum(children@.skip(i as int))));
                }
                let s = children[idx].layout(cc);
                proof {
                    assert(children@.skip(i as int) =~= cs0.skip(i as int));
                    assert(children@.skip(idx as int).drop_first() =~= children@.skip(i as int));
                    assert(children@.skip(idx as int).first() == children@[idx as int]);
                    lemma_aggregates_first(children@.skip(idx as int));
                }
                consumed = add_sat_usize(consumed, s.width);
                tallest = max_usize(tallest, s.height);
                i = idx;
            }
            proof {
                assert(children@.skip(0) =~= children@);
                lemma_same_shape_children_pointwise(pre@, children@);
            }
        },
    }
    Size { width: consumed, height: tallest }
}

/// Lay children out along the height axis, handing each the height its
/// predecessors in walk order left over: the vertical analogue of
/// `layout_horizontal`.
pub fn layout_vertical(
    children: &mut Vec<WidgetContainer>,
    tc: Constraints,
    dir: Direction,
) -> (raw: Size)
    requires
        tc.wf(),
    ensures
        final(children)@.len() == old(children)@.len(),
        same_shape_children(old(children)@, final(children)@),
        (dir is Forward ==> children_laid_out_vbudget(final(children)@, tc)),
        (dir is Backward ==> children_laid_out_vbudget_rev(final(children)@, tc)),
        raw.width == widths_max(final(children)@),
        raw.height == min_i(heights_sum(final(children)@), usize::MAX as int),
    decreases *old(children),
{
    let ghost pre = *old(children);
    let mut consumed: usize = 0;
    let mut widest: usize = 0;
    let n = children.len();
    match dir {
        Direction::Forward => {
            let mut i: usize = 0;
            while i < n
                invariant
                    tc.wf(),
                    i <= n,
                    n == children@.len(),
                    n == pre@.len(),
                    pre == *old(children),
                    forall|j: int| i <= j < n ==> children@[j] == pre@[j],
                    same_shape_children(pre@.take(i as int), children@.take(i as int)),
                    children_laid_out_vbudget(children@.take(i as int), tc),
                    consumed == min_i(heights_sum(children@.take(i as int)), usize::MAX as int),
                    widest == widths_max(children@.take(i as int)),
                decreases n - i,
            {
                let ghost cs0 = children@;
                let rem: usize = if consumed >= tc.max_height {
                    0
                } else {
                    tc.max_height - consumed
                };
                let cc = Constraints {
                    min_width: 0,
                    max_width: tc.max_width,
                    min_height: 0,
                    max_height: rem,
                };
                proof {
                    assert(decreases_to!(pre => pre[i as int]));
                    assert(cc == vchild_constraints(tc, heights_sum(children@.take(i as int))));
                }
                let s = children[i].layout(cc);
                proof {
                    assert(children@.take(i as int) =~= cs0.take(i as int));
                    assert(pre@.take(i + 1).drop_last() =~= pre@.take(i as int));
                    assert(children@.take(i + 1).drop_last() =~= children@.take(i as int));
                    assert(children@.take(i + 1).last() == children@[i as int]);
                    assert(pre@.take(i + 1).last() == pre@[i as int]);
                }
                consumed = add_sat_usize(consumed, s.height);
                widest = max_usize(widest, s.width);
                i = i + 1;
            }
            proof {
                assert(children@.take(n as int) =~= children@);
                assert(pre@.take(n as int) =~= pre@);
            }
        },
        Direction::Backward => {
            let mut i: usize = n;
            while i > 0
                invariant
                    tc.wf(),
                    i <= n,
                    n == children@.len(),
                    n == pre@.len(),
                    pre == *old(children),
                    forall|j: int| 0 <= j < i ==> children@[j] == pre@[j],
                    forall|j: int| i <= j < n ==> same_shape(#[trigger] pre@[j], children@[j]),
                    children_laid_out_vbudget_rev(children@.skip(i as int), tc),
                    consumed == min_i(heights_sum(children@.skip(i as int)), usize::MAX as int),
                    widest == widths_max(children@.skip(i as int)),
                decreases i,
            {
                let idx = i - 1;
                let ghost cs0 = children@;
                let rem: usize = if consumed >= tc.max_height {
                    0
                } else {
                    tc.max_height - consumed
                };
                let cc = Constraints {
                    min_width: 0,
                    max_width: tc.max_width,
                    min_height: 0,
                    max_height: rem,
                };
                proof {
                    assert(decreases_to!(pre => pre[idx as int]));
                    assert(cc == vchild_constraints(tc, heights_sum(children@.skip(i as int))));
                }
                let s = children[idx].layout(cc);
                proof {
                    assert(children@.skip(i as int) =~= cs0.skip(i as int));
                    assert(children@.skip(idx as int).drop_first() =~= children@.skip(i as int));
                    assert(children@.skip(idx as int).first() == children@[idx as int]);
                    lemma_aggregates_first(children@.skip(idx as int));
                }
                consumed = add_sat_usize(consumed, s.height);
                widest = max_usize(widest, s.width);
                i = idx;
            }
            proof {
                assert(children@.skip(0) =~= children@);
                lemma_same_shape_children_pointwise(pre@, children@);
            }
        },
    }
    Size { width: widest, height: consumed }
}

/// Clamp `v + d` into `[lo, hi]`, computing the sum without overflow.
fn clamp_plus(v: usize, d: usize, lo: usize, hi: usize) -> (r: usize)
    requires
        lo <= hi,
    ensures
        r == clamp_i(v + d, lo as int, hi as int),
{
    let s = add_sat_usize(v, d);
    clamp_usize(s, lo, hi)
}

impl WidgetContainer {
    /// The layout pass for this subtree: tighten the constraints with the
    /// widget's declared sizing, let its stacking strategy lay the children
    /// out, and record the resulting size. Total: well-formed constraints in,
    /// a size within bounds out, never an error.
    pub fn layout(&mut self, c: Constraints) -> (size: Size)
        requires
            c.wf(),
        ensures
            final(self).widget == old(self).widget,
            final(self).pos == old(self).pos,
            final(self).size == size,
            same_shape(*old(self), *final(self)),
            laid_out(*final(self), c),
        decreases *old(self),
    {
        proof {
            assert(decreases_to!(*old(self) => old(self).children));
        }
        let size: Size;
        match &self.widget {
            Widget::Text(t) => {
                size = Size {
                    width: min_usize(t.glyphs.len(), c.max_width),
                    height: min_usize(1, c.max_height),
                };
                proof {
                    lemma_same_shape_children_refl(self.children@);
                }
            },
            Widget::Border(_) => {
                let inner = Constraints {
                    min_width: 0,
                    max_width: sub_sat_usize(c.max_width, 2),
                    min_height: 0,
                    max_height: sub_sat_usize(c.max_height, 2),
                };
                proof {
                    assert(inner == border_inner(c));
                }
                let raw = layout_stacked(&mut self.children, inner);
                size = Size {
                    width: clamp_plus(raw.width, 2, c.min_width, c.max_width),
                    height: clamp_plus(raw.height, 2, c.min_height, c.max_height),
                };
            },
            Widget::Expand(_) => {
                let _raw = layout_stacked(&mut self.children, c);
                size = Size { width: c.max_width, height: c.max_height };
            },
            Widget::Offset(o) => {
                let left = o.left;
                let top = o.top;
                let inner = Constraints {
                    min_width: 0,
                    max_width: sub_sat_usize(c.max_width, left),
                    min_height: 0,
                    max_height: sub_sat_usize(c.max_height, top),
                };
                proof {
                    assert(inner == offset_inner(c, left as int, top as int));
                }
                let raw = layout_stacked(&mut self.children, inner);
                size = Size {
                    width: clamp_plus(raw.width, left, c.min_width, c.max_width),
                    height: clamp_plus(raw.height, top, c.min_height, c.max_height),
                };
            },
            Widget::HStack(h) => {
                let tc = apply_stack_sizing(c, h.width, h.height, h.min_width, h.min_height);
                let raw = layout_horizontal(&mut self.children, tc, Direction::Forward);
                let width = clamp_usize(raw.width, tc.min_width, tc.max_width);
                proof {
                    assert(clamp_i(
                        min_i(widths_sum(self.children@), usize::MAX as int),
                        tc.min_width as int,
                        tc.max_width as int,
                    ) == clamp_i(widths_sum(self.children@), tc.min_width as int, tc.max_width as int));
                }
                size = Size {
                    width,
                    height: clamp_usize(raw.height, tc.min_height, tc.max_height),
                };
            },
            Widget::VStack(v) => {
                let tc = apply_stack_sizing(c, v.width, v.height, v.min_width, v.min_height);
                let raw = layout_vertical(&mut self.children, tc, Direction::Forward);
                let height = clamp_usize(raw.height, tc.min_height, tc.max_height);
                proof {
                    assert(clamp_i(
                        min_i(heights_sum(self.children@), usize::MAX as int),
                        tc.min_height as int,
                        tc.max_height as int,
                    ) == clamp_i(heights_sum(self.children@), tc.min_height as int, tc.max_height as int));
                }
                size = Size {
                    width: clamp_usize(raw.width, tc.min_width, tc.max_width),
                    height,
                };
            },
            Widget::ZStack(z) => {
                let tc = apply_stack_sizing(c, z.width, z.height, z.min_width, z.min_height);
                let raw = layout_stacked(&mut self.children, tc);
                size = Size {
                    width: clamp_usize(raw.width, tc.min_width, tc.max_width),
                    height: clamp_usize(raw.height, tc.min_height, tc.max_height),
                };
            },
        }
        self.size = size;
        size
    }
}

/// If every child of a horizontal stack stayed within the width budget it was
/// handed, the children together never exceed the stack's width bound. The
/// hypothesis holds for every well-behaved child; a child whose own declared
/// minimum width exceeds its remaining budget is the one way to break it.
pub proof fn lemma_horizontal_budget(cs: Seq<WidgetContainer>, tc: Constraints)
    requires
        tc.wf(),
        children_laid_out_hbudget(cs, tc),
        forall|i: int|
            0 <= i < cs.len() ==> (#[trigger] cs[i].size.width) <= hchild_constraints(
                tc,
                widths_sum(cs.take(i)),
            ).max_width,
    ensures
        widths_sum(cs) <= tc.max_width,
    decreases cs.len(),
{
    if cs.len() > 0 {
        let head = cs.drop_last();
        assert forall|i: int| 0 <= i < head.len() implies (#[trigger] head[i].size.width)
            <= hchild_constraints(tc, widths_sum(head.take(i))).max_width by {
            assert(head.take(i) =~= cs.take(i));
            assert(head[i] == cs[i]);
        }
        lemma_horizontal_budget(head, tc);
        assert(cs.take(cs.len() - 1) =~= head);
        assert(cs[cs.len() - 1] == cs.last());
    }
}

/// The reverse-direction analogue of `lemma_horizontal_budget`.
pub proof fn lemma_horizontal_budget_rev(cs: Seq<WidgetContainer>, tc: Constraints)
    requires
        tc.wf(),
        children_laid_out_hbudget_rev(cs, tc),
        forall|i: int|
            0 <= i < cs.len() ==> (#[trigger] cs[i].size.width) <= hchild_constraints(
                tc,
                widths_sum(cs.skip(i + 1)),
            ).max_width,
    ensures
        widths_sum(cs) <= tc.max_width,
    decreases cs.len(),
{
    if cs.len() > 0 {
        let tail = cs.drop_first();
        assert forall|i: int| 0 <= i < tail.len() implies (#[trigger] tail[i].size.width)
            <= hchild_constraints(tc, widths_sum(tail.skip(i + 1))).max_width by {
            assert(tail.skip(i + 1) =~= cs.skip(i + 2));
            assert(tail[i] == cs[i + 1]);
        }
        lemma_horizontal_budget_rev(tail, tc);
        lemma_aggregates_first(cs);
        assert(cs.skip(1) =~= tail);
        assert(cs[0] == cs.first());
    }
}

/// The vertical analogue of `lemma_horizontal_budget`.
pub proof fn lemma_vertical_budget(cs: Seq<WidgetContainer>, tc: Constraints)
    requires
        tc.wf(),
        children_laid_out_vbudget(cs, tc),
        forall|i: int|
            0 <= i < cs.len() ==> (#[trigger] cs[i].size.height) <= vchild_constraints(
                tc,
                heights_sum(cs.take(i)),
            ).max_height,
    ensures
        heights_sum(cs) <= tc.max_height,
    decreases cs.len(),
{
    if cs.len() > 0 {
        let head = cs.drop_last();
        assert forall|i: int| 0 <= i < head.len() implies (#[trigger] head[i].size.height)
            <= vchild_constraints(tc, heights_sum(head.take(i))).max_height by {
            assert(head.take(i) =~= cs.take(i));
            assert(head[i] == cs[i]);
        }
        lemma_vertical_budget(head, tc);
        assert(cs.take(cs.len() - 1) =~= head);
        assert(cs[cs.len() - 1] == cs.last());
    }
}

/// A laid-out horizontal container spans exactly the sum of its children's
/// widths and the height of its tallest child, whenever those extents
/// already lie within its tightened bounds.
pub proof fn lemma_horizontal_extent(n: WidgetContainer, c: Constraints, tc: Constraints)
    requires
        c.wf(),
        laid_out(n, c),
        n.widget matches Widget::HStack(h) && tc == stack_sized(
            c,
            h.width,
            h.height,
            h.min_width,
            h.min_height,
        ),
        tc.min_width <= widths_sum(n.children@) <= tc.max_width,
        tc.min_height <= heights_max(n.children@) <= tc.max_height,
    ensures
        n.size.width == widths_sum(n.children@),
        n.size.height == heights_max(n.children@),
        children_laid_out_hbudget(n.children@, tc),
{
}

/// A laid-out stacked container is exactly as large as its largest child on
/// each axis whenever that extent already lies within its tightened bounds —
/// and all of its children were laid out under identical constraints.
pub proof fn lemma_stacked_extent(n: WidgetContainer, c: Constraints, tc: Constraints)
    requires
        c.wf(),
        laid_out(n, c),
        n.widget matches Widget::ZStack(z) && tc == stack_sized(
            c,
            z.width,
            z.height,
            z.min_width,
            z.min_height,
        ),
        tc.min_width <= widths_max(n.children@) <= tc.max_width,
        tc.min_height <= heights_max(n.children@) <= tc.max_height,
    ensures
        n.size.width == widths_max(n.children@),
        n.size.height == heights_max(n.children@),
        children_laid_out_same(n.children@, tc),
{
}

} // verus!
