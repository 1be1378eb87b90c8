//! The widget kinds a node of the tree can hold: the stacking containers
//! (HStack, VStack, ZStack) with their optional declared sizes, and the small
//! leaf and wrapper widgets (text, border, expand, offset positioning) needed
//! to exercise the three-pass protocol.
use vstd::prelude::*;

verus! {

/// A widget that lays out its children horizontally, left to right.
#[derive(Clone, Copy, Debug, PartialEq, Eq)]
pub struct HStack {
    /// If a width is provided then the layout constraints will be tight for width.
    pub width: Option<usize>,
    /// If a height is provided then the layout constraints will be tight for height.
    pub height: Option<usize>,
    /// Forces the minimum constrained width to expand to this value.
    pub min_width: Option<usize>,
    /// Forces the minimum constrained height to expand to this value.
    pub min_height: Option<usize>,
}

impl HStack {
    /// Create a new instance of an `HStack`.
    pub fn new(width: Option<usize>, height: Option<usize>) -> (s: HStack)
        ensures
            s == (HStack { width, height, min_width: None, min_height: None }),
    {
        HStack { width, height, min_width: None, min_height: None }
    }

    /// Construct from the four attributes a widget factory resolves.
    pub fn from_attributes(
        width: Option<usize>,
        height: Option<usize>,
        min_width: Option<usize>,
        min_height: Option<usize>,
    ) -> (s: HStack)
        ensures
            s == (HStack { width, height, min_width, min_height }),
    {
        HStack { width, height, min_width, min_height }
    }

    /// Re-resolve the four optional sizing attributes; geometry is untouched.
    pub fn update(
        &mut self,
        width: Option<usize>,
        height: Option<usize>,
        min_width: Option<usize>,
        min_height: Option<usize>,
    )
        ensures
            *final(self) == (HStack { width, height, min_width, min_height }),
    {
        self.width = width;
        self.height = height;
        self.min_width = min_width;
        self.min_height = min_height;
    }

    pub fn kind(&self) -> (r: &'static str)
        ensures
            r@ == "HStack"@,
    {
        "HStack"
    }
}

/// A widget that lays out its children vertically, top to bottom.
#[derive(Clone, Copy, Debug, PartialEq, Eq)]
pub struct VStack {
    pub width: Option<usize>,
    pub height: Option<usize>,
    pub min_width: Option<usize>,
    pub min_height: Option<usize>,
}

impl VStack {
    /// Create a new instance of a `VStack`.
    pub fn new(width: Option<usize>, height: Option<usize>) -> (s: VStack)
        ensures
            s == (VStack { width, height, min_width: None, min_height: None }),
    {
        VStack { width, height, min_width: None, min_height: None }
    }

    /// Construct from the four attributes a widget factory resolves.
    pub fn from_attributes(
        width: Option<usize>,
        height: Option<usize>,
        min_width: Option<usize>,
        min_height: Option<usize>,
    ) -> (s: VStack)
        ensures
            s == (VStack { width, height, min_width, min_height }),
    {
        VStack { width, height, min_width, min_height }
    }

    /// Re-resolve the four optional sizing attributes; geometry is untouched.
    pub fn update(
        &mut self,
        width: Option<usize>,
        height: Option<usize>,
        min_width: Option<usize>,
        min_height: Option<usize>,
    )
        ensures
            *final(self) == (VStack { width, height, min_width, min_height }),
    {
        self.width = width;
        self.height = height;
        self.min_width = min_width;
        self.min_height = min_height;
    }

    pub fn kind(&self) -> (r: &'static str)
        ensures
            r@ == "VStack"@,
    {
        "VStack"
    }
}

/// A widget that draws its children on top of each other, in insertion
/// order: the last child ends up on top.
#[derive(Clone, Copy, Debug, PartialEq, Eq)]
pub struct ZStack {
    /// Width
    pub width: Option<usize>,
    /// Height
    pub height: Option<usize>,
    /// Forces the minimum constrained width to expand to this value.
    pub min_width: Option<usize>,
    /// Forces the minimum constrained height to expand to this value.
    pub min_height: Option<usize>,
}

impl ZStack {
    /// Create a new instance of a `ZStack`.
    pub fn new(width: Option<usize>, height: Option<usize>) -> (s: ZStack)
        ensures
            s == (ZStack { width, height, min_width: None, min_height: None }),
    {
        ZStack { width, height, min_width: None, min_height: None }
    }

    /// Construct from the four attributes a widget factory resolves.
    pub fn from_attributes(
        width: Option<usize>,
        height: Option<usize>,
        min_width: Option<usize>,
        min_height: Option<usize>,
    ) -> (s: ZStack)
        ensures
            s == (ZStack { width, height, min_width, min_height }),
    {
        ZStack { width, height, min_width, min_height }
    }

    /// Re-resolve the four optional sizing attributes; geometry is untouched.
    pub fn update(
        &mut self,
        width: Option<usize>,
        height: Option<usize>,
        min_width: Option<usize>,
        min_height: Option<usize>,
    )
        ensures
            *final(self) == (ZStack { width, height, min_width, min_height }),
    {
        self.width = width;
        self.height = height;
        self.min_width = min_width;
        self.min_height = min_height;
    }

    pub fn kind(&self) -> (r: &'static str)
        ensures
            r@ == "ZStack"@,
    {
        "ZStack"
    }
}

/// A single line of text, truncated by layout to the width it is given.
#[derive(Clone, Debug, PartialEq, Eq)]
pub struct Text {
    pub glyphs: Vec<char>,
}

impl Text {
    pub fn from_chars(glyphs: Vec<char>) -> (s: Text)
        ensures
            s.glyphs@ == glyphs@,
    {
        Text { glyphs }
    }

    pub fn kind(&self) -> (r: &'static str)
        ensures
            r@ == "Text"@,
    {
        "Text"
    }
}

/// A thin border drawn around its child, adding one cell on every side.
#[derive(Clone, Copy, Debug, PartialEq, Eq)]
pub struct Border {}

impl Border {
    pub fn new() -> (s: Border)
        ensures
            s == (Border {  }),
    {
        Border {  }
    }

    pub fn kind(&self) -> (r: &'static str)
        ensures
            r@ == "Border"@,
    {
        "Border"
    }
}

/// A widget that fills all the space its constraints allow.
#[derive(Clone, Copy, Debug, PartialEq, Eq)]
pub struct Expand {}

impl Expand {
    pub fn new() -> (s: Expand)
        ensures
            s == (Expand {  }),
    {
        Expand {  }
    }

    pub fn kind(&self) -> (r: &'static str)
        ensures
            r@ == "Expand"@,
    {
        "Expand"
    }
}

/// A widget that offsets its children from its own origin, letting a child
/// be placed over a sibling (for example a title over a border).
#[derive(Clone, Copy, Debug, PartialEq, Eq)]
pub struct Offset {
    /// Offset from the left edge.
    pub left: usize,
    /// Offset from the top edge.
    pub top: usize,
}

impl Offset {
    pub fn new(left: usize, top: usize) -> (s: Offset)
        ensures
            s == (Offset { left, top }),
    {
        Offset { left, top }
    }

    pub fn kind(&self) -> (r: &'static str)
        ensures
            r@ == "Offset"@,
    {
        "Offset"
    }
}

/// The closed set of widget kinds a tree node can hold. Each participates in
/// the same three-pass protocol: layout, then position, then paint.
#[derive(Clone, Debug, PartialEq, Eq)]
pub enum Widget {
    Text(Text),
    Border(Border),
    Expand(Expand),
    Offset(Offset),
    HStack(HStack),
    VStack(VStack),
    ZStack(ZStack),
}

impl Widget {
    pub fn kind(&self) -> (r: &'static str)
        ensures
            (self is Text ==> r@ == "Text"@),
            (self is Border ==> r@ == "Border"@),
            (self is Expand ==> r@ == "Expand"@),
            (self is Offset ==> r@ == "Offset"@),
            (self is HStack ==> r@ == "HStack"@),
            (self is VStack ==> r@ == "VStack"@),
            (self is ZStack ==> r@ == "ZStack"@),
    {
        match self {
            Widget::Text(w) => w.kind(),
            Widget::Border(w) => w.kind(),
            Widget::Expand(w) => w.kind(),
            Widget::Offset(w) => w.kind(),
            Widget::HStack(w) => w.kind(),
            Widget::VStack(w) => w.kind(),
            Widget::ZStack(w) => w.kind(),
        }
    }
}

} // verus!
