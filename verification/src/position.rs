//! The position pass: a top-down walk that assigns every node its absolute
//! screen coordinates from the sizes the layout pass computed. `positioned`
//! is the pass's contract; because positions are a function of sizes and the
//! origin alone, running the pass twice from the same origin yields identical
//! positions, which is proved below.
use vstd::prelude::*;

use crate::geometry::{pos_shift, pos_shift_spec, sat_i32, shift_coord, Pos};
use crate::tree::WidgetContainer;
use crate::widgets::Widget;

verus! {

broadcast use vstd::std_specs::vec::group_vec_axioms;

/// Where a widget places its first child relative to its own origin: a border
/// indents by one cell on both axes, an offset widget by its declared
/// offsets, every other widget starts children at its own origin.
pub open spec fn child_start(w: Widget, origin: Pos) -> Pos {
    match w {
        Widget::Border(_) => pos_shift_spec(origin, 1, 1),
        Widget::Offset(o) => pos_shift_spec(origin, o.left as int, o.top as int),
        _ => origin,
    }
}

/// How a widget advances the running origin past one laid-out child: an
/// HStack moves right by the child's width, a VStack down by its height, and
/// the overlapping containers do not move at all.
pub open spec fn child_advance(w: Widget, cur: Pos, child: WidgetContainer) -> Pos {
    match w {
        Widget::HStack(_) => Pos { x: sat_i32(cur.x + child.size.width) as i32, y: cur.y },
        Widget::VStack(_) => Pos { x: cur.x, y: sat_i32(cur.y + child.size.height) as i32 },
        _ => cur,
    }
}

/// The origin of the child that follows the siblings `prior`, all placed from
/// `start` under widget `w`'s stacking policy.
pub open spec fn siblings_origin(w: Widget, start: Pos, prior: Seq<WidgetContainer>) -> Pos
    decreases prior.len(),
{
    if prior.len() == 0 {
        start
    } else {
        child_advance(w, siblings_origin(w, start, prior.drop_last()), prior.last())
    }
}

/// The position pass's contract: `post` is `pre` with this subtree placed at
/// `origin`. Sizes and widgets are untouched; every node's position is
/// determined by the sizes and the origin.
pub open spec fn positioned(pre: WidgetContainer, post: WidgetContainer, origin: Pos) -> bool
    decreases pre,
{
    &&& post.widget == pre.widget
    &&& post.size == pre.size
    &&& post.pos == origin
    &&& children_positioned(
        pre.widget,
        pre.children@,
        post.children@,
        child_start(pre.widget, origin),
    )
}

pub open spec fn children_positioned(
    w: Widget,
    pre_cs: Seq<WidgetContainer>,
    post_cs: Seq<WidgetContainer>,
    start: Pos,
) -> bool
    decreases pre_cs,
{
    &&& post_cs.len() == pre_cs.len()
    &&& if pre_cs.len() == 0 {
        true
    } else {
        children_positioned(w, pre_cs.drop_last(), post_cs.drop_last(), start)
            && positioned(
            pre_cs.last(),
            post_cs.last(),
            siblings_origin(w, start, pre_cs.drop_last()),
        )
    }
}

impl WidgetContainer {
    /// The position pass for this subtree: place this node at `origin` and
    /// its children according to its stacking policy, using the sizes the
    /// layout pass computed.
    pub fn position(&mut self, origin: Pos)
        ensures
            positioned(*old(self), *final(self), origin),
        decreases *old(self),
    {
        let ghost pre = *old(self);
        self.pos = origin;
        let start: Pos = match &self.widget {
            Widget::Border(_) => pos_shift(origin, 1, 1),
            Widget::Offset(o) => pos_shift(origin, o.left, o.top),
            _ => origin,
        };
        let mut cur = start;
        let n = self.children.len();
        let mut i: usize = 0;
        while i < n
            invariant
                i <= n,
                n == self.children@.len(),
                n == pre.children@.len(),
                pre == *old(self),
                self.widget == pre.widget,
                self.size == pre.size,
                self.pos == origin,
                start == child_start(pre.widget, origin),
                forall|j: int| i <= j < n ==> self.children@[j] == pre.children@[j],
                children_positioned(
                    pre.widget,
                    pre.children@.take(i as int),
                    self.children@.take(i as int),
                    start,
                ),
                cur == siblings_origin(pre.widget, start, pre.children@.take(i as int)),
            decreases n - i,
        {
            let ghost cs0 = self.children@;
            proof {
                assert(decreases_to!(pre => pre.children));
                assert(decreases_to!(pre.children => pre.children[i as int]));
            }
            self.children[i].position(cur);
            proof {
                assert(self.children@.take(i as int) =~= cs0.take(i as int));
                assert(pre.children@.take(i + 1).drop_last() =~= pre.children@.take(i as int));
                assert(self.children@.take(i + 1).drop_last() =~= self.children@.take(i as int));
                assert(self.children@.take(i + 1).last() == self.children@[i as int]);
                assert(pre.children@.take(i + 1).last() == pre.children@[i as int]);
            }
            let next: Pos = match &self.widget {
                Widget::HStack(_) => {
                    Pos { x: shift_coord(cur.x, self.children[i].size.width), y: cur.y }
                },
                Widget::VStack(_) => {
                    Pos { x: cur.x, y: shift_coord(cur.y, self.children[i].size.height) }
                },
                _ => cur,
            };
            proof {
                assert(self.children@[i as int].size == pre.children@[i as int].size);
            }
            cur = next;
            i = i + 1;
        }
        proof {
            assert(self.children@.take(n as int) =~= self.children@);
            assert(pre.children@.take(n as int) =~= pre.children@);
        }
    }
}

/// Two trees agree on every widget, size and position.
pub open spec fn congruent(a: WidgetContainer, b: WidgetContainer) -> bool
    decreases a,
{
    &&& b.widget == a.widget
    &&& b.size == a.size
    &&& b.pos == a.pos
    &&& congruent_children(a.children@, b.children@)
}

pub open spec fn congruent_children(xs: Seq<WidgetContainer>, ys: Seq<WidgetContainer>) -> bool
    decreases xs,
{
    &&& ys.len() == xs.len()
    &&& if xs.len() == 0 {
        true
    } else {
        congruent_children(xs.drop_last(), ys.drop_last()) && congruent(xs.last(), ys.last())
    }
}

/// Positioning does not change sizes, so the running origins computed from
/// the positioned children equal those computed from the children as
/// they stood before the pass.
pub proof fn lemma_siblings_origin_match(
    w: Widget,
    pre_cs: Seq<WidgetContainer>,
    post_cs: Seq<WidgetContainer>,
    start: Pos,
)
    requires
        children_positioned(w, pre_cs, post_cs, start),
    ensures
        siblings_origin(w, start, post_cs) == siblings_origin(w, start, pre_cs),
    decreases pre_cs,
{
    if pre_cs.len() > 0 {
        lemma_siblings_origin_match(w, pre_cs.drop_last(), post_cs.drop_last(), start);
        assert(positioned(
            pre_cs.last(),
            post_cs.last(),
            siblings_origin(w, start, pre_cs.drop_last()),
        ));
        assert(post_cs.last().size == pre_cs.last().size);
        assert(siblings_origin(w, start, post_cs) == child_advance(
            w,
            siblings_origin(w, start, post_cs.drop_last()),
            post_cs.last(),
        ));
    }
}

/// A positioned tree is a fixed point: positioning it again from the same
/// origin relates it to itself.
pub proof fn lemma_positioned_fixpoint(pre: WidgetContainer, post: WidgetContainer, origin: Pos)
    requires
        positioned(pre, post, origin),
    ensures
        positioned(post, post, origin),
    decreases pre,
{
    lemma_children_positioned_fixpoint(
        pre.widget,
        pre.children@,
        post.children@,
        child_start(pre.widget, origin),
    );
}

pub proof fn lemma_children_positioned_fixpoint(
    w: Widget,
    pre_cs: Seq<WidgetContainer>,
    post_cs: Seq<WidgetContainer>,
    start: Pos,
)
    requires
        children_positioned(w, pre_cs, post_cs, start),
    ensures
        children_positioned(w, post_cs, post_cs, start),
    decreases pre_cs,
{
    if pre_cs.len() > 0 {
        lemma_children_positioned_fixpoint(w, pre_cs.drop_last(), post_cs.drop_last(), start);
        lemma_positioned_fixpoint(
            pre_cs.last(),
            post_cs.last(),
            siblings_origin(w, start, pre_cs.drop_last()),
        );
        lemma_siblings_origin_match(w, pre_cs.drop_last(), post_cs.drop_last(), start);
    }
}

/// The position pass is deterministic: two runs over the same tree from the
/// same origin produce congruent results.
pub proof fn lemma_positioned_deterministic(
    pre: WidgetContainer,
    p1: WidgetContainer,
    p2: WidgetContainer,
    origin: Pos,
)
    requires
        positioned(pre, p1, origin),
        positioned(pre, p2, origin),
    ensures
        congruent(p1, p2),
    decreases pre,
{
    lemma_children_positioned_deterministic(
        pre.widget,
        pre.children@,
        p1.children@,
        p2.children@,
        child_start(pre.widget, origin),
    );
}

pub proof fn lemma_children_positioned_deterministic(
    w: Widget,
    pre_cs: Seq<WidgetContainer>,
    cs1: Seq<WidgetContainer>,
    cs2: Seq<WidgetContainer>,
    start: Pos,
)
    requires
        children_positioned(w, pre_cs, cs1, start),
        children_positioned(w, pre_cs, cs2, start),
    ensures
        congruent_children(cs1, cs2),
    decreases pre_cs,
{
    if pre_cs.len() > 0 {
        lemma_children_positioned_deterministic(
            w,
            pre_cs.drop_last(),
            cs1.drop_last(),
            cs2.drop_last(),
            start,
        );
        lemma_positioned_deterministic(
            pre_cs.last(),
            cs1.last(),
            cs2.last(),
            siblings_origin(w, start, pre_cs.drop_last()),
        );
    }
}

/// Position idempotence: positioning a tree a second time from the same
/// origin leaves every position exactly where the first run put it — there is
/// no accumulated drift.
pub proof fn lemma_position_idempotent(
    pre: WidgetContainer,
    once: WidgetContainer,
    twice: WidgetContainer,
    origin: Pos,
)
    requires
        positioned(pre, once, origin),
        positioned(once, twice, origin),
    ensures
        congruent(twice, once),
{
    lemma_positioned_fixpoint(pre, once, origin);
    lemma_positioned_deterministic(once, twice, once, origin);
}

} // verus!
