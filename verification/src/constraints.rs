//! Min/max width and height bounds that a layout pass hands down the tree.
//! Every mutation keeps `min <= max` on both axes: tightening a maximum
//! clamps against the minimum floor, and raising a minimum drags the maximum
//! up with it. When a declared size and a declared minimum conflict, the
//! minimum floor wins: the maximum is clamped up to it.
use vstd::prelude::*;

use crate::geometry::{clamp_i, max_i, min_i};

verus! {

#[derive(Clone, Copy, Debug, PartialEq, Eq, Structural)]
pub struct Constraints {
    pub min_width: usize,
    pub max_width: usize,
    pub min_height: usize,
    pub max_height: usize,
}

impl Constraints {
    /// The internal-consistency invariant every operation preserves.
    pub open spec fn wf(self) -> bool {
        self.min_width <= self.max_width && self.min_height <= self.max_height
    }

    pub open spec fn tighten_max_width_spec(self, w: int) -> Constraints {
        Constraints {
            max_width: max_i(min_i(self.max_width as int, w), self.min_width as int) as usize,
            ..self
        }
    }

    pub open spec fn tighten_max_height_spec(self, h: int) -> Constraints {
        Constraints {
            max_height: max_i(min_i(self.max_height as int, h), self.min_height as int) as usize,
            ..self
        }
    }

    pub open spec fn raise_min_width_spec(self, w: int) -> Constraints {
        Constraints {
            min_width: max_i(self.min_width as int, w) as usize,
            max_width: max_i(self.max_width as int, max_i(self.min_width as int, w)) as usize,
            ..self
        }
    }

    pub open spec fn raise_min_height_spec(self, h: int) -> Constraints {
        Constraints {
            min_height: max_i(self.min_height as int, h) as usize,
            max_height: max_i(self.max_height as int, max_i(self.min_height as int, h)) as usize,
            ..self
        }
    }

    /// Constraints with no minimum floors and the given maxima.
    pub fn unbounded(max_width: usize, max_height: usize) -> (c: Constraints)
        ensures
            c == (Constraints { min_width: 0, max_width, min_height: 0, max_height }),
            c.wf(),
    {
        Constraints { min_width: 0, max_width, min_height: 0, max_height }
    }

    /// Tighten the width maximum to the declared fixed width, never raising it
    /// and never letting it fall below the minimum floor.
    pub fn make_width_tight(&mut self, width: usize)
        requires
            old(self).wf(),
        ensures
            *final(self) == old(self).tighten_max_width_spec(width as int),
            final(self).wf(),
    {
        if width < self.max_width {
            self.max_width = width;
        }
        if self.max_width < self.min_width {
            self.max_width = self.min_width;
        }
    }

    /// Tighten the height maximum to the declared fixed height.
    pub fn make_height_tight(&mut self, height: usize)
        requires
            old(self).wf(),
        ensures
            *final(self) == old(self).tighten_max_height_spec(height as int),
            final(self).wf(),
    {
        if height < self.max_height {
            self.max_height = height;
        }
        if self.max_height < self.min_height {
            self.max_height = self.min_height;
        }
    }

    /// Raise the width minimum to the declared floor, dragging the maximum up
    /// with it if the two would otherwise invert.
    pub fn raise_min_width(&mut self, width: usize)
        requires
            old(self).wf(),
        ensures
            *final(self) == old(self).raise_min_width_spec(width as int),
            final(self).wf(),
    {
        if width > self.min_width {
            self.min_width = width;
        }
        if self.max_width < self.min_width {
            self.max_width = self.min_width;
        }
    }

    /// Raise the height minimum to the declared floor.
    pub fn raise_min_height(&mut self, height: usize)
        requires
            old(self).wf(),
        ensures
            *final(self) == old(self).raise_min_height_spec(height as int),
            final(self).wf(),
    {
        if height > self.min_height {
            self.min_height = height;
        }
        if self.max_height < self.min_height {
            self.max_height = self.min_height;
        }
    }
}

/// Tightening to a declared fixed width that fits the current bounds pins the
/// maximum to exactly that width and leaves the minimum at or below it.
pub proof fn lemma_tighten_fixed_width(c: Constraints, w: usize)
    requires
        c.wf(),
        c.min_width <= w,
        w <= c.max_width,
    ensures
        c.tighten_max_width_spec(w as int).max_width == w,
        c.tighten_max_width_spec(w as int).min_width <= w,
        c.tighten_max_width_spec(w as int).wf(),
{
}

/// The height analogue of `lemma_tighten_fixed_width`.
pub proof fn lemma_tighten_fixed_height(c: Constraints, h: usize)
    requires
        c.wf(),
        c.min_height <= h,
        h <= c.max_height,
    ensures
        c.tighten_max_height_spec(h as int).max_height == h,
        c.tighten_max_height_spec(h as int).min_height <= h,
        c.tighten_max_height_spec(h as int).wf(),
{
}

/// Tightening the width maximum and raising the width minimum commute: the
/// order in which a container applies its declared size and its declared
/// minimum does not matter.
pub proof fn lemma_width_ops_commute(c: Constraints, w: usize, m: usize)
    requires
        c.wf(),
    ensures
        c.tighten_max_width_spec(w as int).raise_min_width_spec(m as int)
            == c.raise_min_width_spec(m as int).tighten_max_width_spec(w as int),
{
}

} // verus!
