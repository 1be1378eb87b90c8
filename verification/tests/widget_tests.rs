use anathema_widgets::constraints::Constraints;
use anathema_widgets::geometry::{Pos, Size};
use anathema_widgets::surface::Buffer;
use anathema_widgets::tree::{layout_horizontal, Direction, WidgetContainer};
use anathema_widgets::widgets::{Border, Expand, HStack, Offset, Text, VStack, Widget, ZStack};

fn text(s: &str) -> WidgetContainer {
    WidgetContainer::new(Widget::Text(Text::from_chars(s.chars().collect())))
}

fn bordered(child: WidgetContainer) -> WidgetContainer {
    let mut b = WidgetContainer::new(Widget::Border(Border::new()));
    b.add_child(child);
    b
}

fn row_string(buf: &Buffer, y: usize) -> String {
    buf.row(y).into_iter().collect()
}

fn render(root: &WidgetContainer, width: usize, height: usize) -> Buffer {
    let mut buf = Buffer::new(width, height, ' ');
    let region = buf.full_region();
    root.paint(&mut buf, region);
    buf
}

#[test]
fn only_hstack() {
    let mut hstack = WidgetContainer::new(Widget::HStack(HStack::new(None, None)));
    for i in 0..3 {
        hstack.add_child(bordered(text(&i.to_string())));
    }
    let size = hstack.layout(Constraints::unbounded(15, 5));
    assert_eq!(size, Size::new(9, 3));
    hstack.position(Pos::new(0, 0));
    assert_eq!(hstack.children[0].pos, Pos::new(0, 0));
    assert_eq!(hstack.children[1].pos, Pos::new(3, 0));
    assert_eq!(hstack.children[2].pos, Pos::new(6, 0));
    let buf = render(&hstack, 15, 5);
    let expected = [
        "┌─┐┌─┐┌─┐      ",
        "│0││1││2│      ",
        "└─┘└─┘└─┘      ",
        "               ",
        "               ",
    ];
    for (y, want) in expected.iter().enumerate() {
        assert_eq!(row_string(&buf, y), *want);
    }
}

#[test]
fn fixed_width_stack() {
    let mut hstack = WidgetContainer::new(Widget::HStack(HStack::new(Some(6), None)));
    for i in 0..10 {
        hstack.add_child(bordered(text(&i.to_string())));
    }
    let size = hstack.layout(Constraints::unbounded(15, 6));
    assert_eq!(size, Size::new(6, 3));
    // Exactly two children fit the tightened width; the rest get a zero
    // budget and report degenerate sizes.
    assert_eq!(hstack.children[0].size, Size::new(3, 3));
    assert_eq!(hstack.children[1].size, Size::new(3, 3));
    for child in hstack.children.iter().skip(2) {
        assert_eq!(child.size.width, 0);
    }
    let total: usize = hstack.children.iter().map(|c| c.size.width).sum();
    assert!(total <= 6);
    hstack.position(Pos::new(0, 0));
    let buf = render(&hstack, 15, 6);
    let expected = [
        "┌─┐┌─┐         ",
        "│0││1│         ",
        "└─┘└─┘         ",
        "               ",
        "               ",
        "               ",
    ];
    for (y, want) in expected.iter().enumerate() {
        assert_eq!(row_string(&buf, y), *want);
    }
}

#[test]
fn border_title() {
    let mut zstack = WidgetContainer::new(Widget::ZStack(ZStack::new(None, None)));
    let mut border = WidgetContainer::new(Widget::Border(Border::new()));
    border.add_child(WidgetContainer::new(Widget::Expand(Expand::new())));
    zstack.add_child(border);
    let mut title = WidgetContainer::new(Widget::Offset(Offset::new(2, 0)));
    title.add_child(text(" [title] "));
    zstack.add_child(title);
    let size = zstack.layout(Constraints::unbounded(20, 5));
    assert_eq!(size, Size::new(20, 5));
    zstack.position(Pos::new(0, 0));
    let buf = render(&zstack, 20, 5);
    let expected = [
        "┌─ [title] ────────┐",
        "│                  │",
        "│                  │",
        "│                  │",
        "└──────────────────┘",
    ];
    for (y, want) in expected.iter().enumerate() {
        assert_eq!(row_string(&buf, y), *want);
    }
}

#[test]
fn place_on_top() {
    let mut zstack = WidgetContainer::new(Widget::ZStack(ZStack::new(None, None)));
    zstack.add_child(text("000"));
    zstack.add_child(text("11"));
    zstack.add_child(text("2"));
    let size = zstack.layout(Constraints::unbounded(20, 3));
    // The stacked container is exactly as large as its largest child.
    assert_eq!(size, Size::new(3, 1));
    zstack.position(Pos::new(0, 0));
    for child in zstack.children.iter() {
        assert_eq!(child.pos, Pos::new(0, 0));
    }
    let buf = render(&zstack, 20, 3);
    let expected = [
        "210                 ",
        "                    ",
        "                    ",
    ];
    for (y, want) in expected.iter().enumerate() {
        assert_eq!(row_string(&buf, y), *want);
    }
}

#[test]
fn tighten_fixed_width_pins_max() {
    let mut c = Constraints::unbounded(10, 7);
    c.make_width_tight(6);
    assert_eq!(c.max_width, 6);
    assert!(c.min_width <= 6);
    assert_eq!(c.max_height, 7);
    // A declared minimum that conflicts with the tightened maximum wins: the
    // maximum is clamped up to the floor.
    c.raise_min_width(8);
    assert_eq!(c.min_width, 8);
    assert_eq!(c.max_width, 8);
}

#[test]
fn tighten_and_raise_commute() {
    let mut a = Constraints::unbounded(10, 10);
    a.make_width_tight(3);
    a.raise_min_width(5);
    let mut b = Constraints::unbounded(10, 10);
    b.raise_min_width(5);
    b.make_width_tight(3);
    assert_eq!(a, b);
}

#[test]
fn horizontal_budget_is_respected() {
    let mut hstack = WidgetContainer::new(Widget::HStack(HStack::new(None, None)));
    hstack.add_child(text("aaaa"));
    hstack.add_child(text("bbbb"));
    hstack.add_child(text("cccc"));
    let size = hstack.layout(Constraints::unbounded(10, 2));
    // 4 + 4 + the 2 columns left over for the third child.
    assert_eq!(size, Size::new(10, 1));
    assert_eq!(hstack.children[2].size, Size::new(2, 1));
    let total: usize = hstack.children.iter().map(|c| c.size.width).sum();
    assert!(total <= 10);
    hstack.position(Pos::new(0, 0));
    let buf = render(&hstack, 12, 1);
    assert_eq!(row_string(&buf, 0), "aaaabbbbcc  ");
}

#[test]
fn vstack_stacks_downward() {
    let mut vstack = WidgetContainer::new(Widget::VStack(VStack::new(None, None)));
    vstack.add_child(text("one"));
    vstack.add_child(text("two"));
    vstack.add_child(text("three"));
    let size = vstack.layout(Constraints::unbounded(10, 10));
    assert_eq!(size, Size::new(5, 3));
    vstack.position(Pos::new(0, 0));
    assert_eq!(vstack.children[0].pos, Pos::new(0, 0));
    assert_eq!(vstack.children[1].pos, Pos::new(0, 1));
    assert_eq!(vstack.children[2].pos, Pos::new(0, 2));
    let buf = render(&vstack, 6, 3);
    assert_eq!(row_string(&buf, 0), "one   ");
    assert_eq!(row_string(&buf, 1), "two   ");
    assert_eq!(row_string(&buf, 2), "three ");
}

#[test]
fn position_is_idempotent() {
    let mut hstack = WidgetContainer::new(Widget::HStack(HStack::new(None, None)));
    hstack.add_child(bordered(text("x")));
    hstack.add_child(text("yy"));
    hstack.layout(Constraints::unbounded(12, 4));
    hstack.position(Pos::new(3, 2));
    let first: Vec<Pos> = hstack.children.iter().map(|c| c.pos).collect();
    hstack.position(Pos::new(3, 2));
    let second: Vec<Pos> = hstack.children.iter().map(|c| c.pos).collect();
    assert_eq!(first, second);
    assert_eq!(hstack.pos, Pos::new(3, 2));
}

#[test]
fn zstack_declared_width_truncates() {
    let mut zstack = WidgetContainer::new(Widget::ZStack(ZStack::new(Some(2), None)));
    zstack.add_child(text("000"));
    let size = zstack.layout(Constraints::unbounded(10, 2));
    assert_eq!(size, Size::new(2, 1));
    zstack.position(Pos::new(0, 0));
    let buf = render(&zstack, 4, 1);
    assert_eq!(row_string(&buf, 0), "00  ");
}

#[test]
fn zstack_min_width_expands() {
    let mut z = ZStack::new(None, None);
    z.update(None, None, Some(5), None);
    let mut zstack = WidgetContainer::new(Widget::ZStack(z));
    zstack.add_child(text("000"));
    let size = zstack.layout(Constraints::unbounded(10, 2));
    assert_eq!(size, Size::new(5, 1));
}

#[test]
fn empty_containers_collapse() {
    let mut hstack = WidgetContainer::new(Widget::HStack(HStack::new(None, None)));
    assert_eq!(hstack.layout(Constraints::unbounded(9, 9)), Size::new(0, 0));
    let mut zstack = WidgetContainer::new(Widget::ZStack(ZStack::new(None, None)));
    assert_eq!(zstack.layout(Constraints::unbounded(9, 9)), Size::new(0, 0));
    let mut border = WidgetContainer::new(Widget::Border(Border::new()));
    assert_eq!(border.layout(Constraints::unbounded(9, 9)), Size::new(2, 2));
    border.position(Pos::new(0, 0));
    let buf = render(&border, 3, 2);
    assert_eq!(row_string(&buf, 0), "┌┐ ");
    assert_eq!(row_string(&buf, 1), "└┘ ");
}

#[test]
fn expand_fills_constraints() {
    let mut expand = WidgetContainer::new(Widget::Expand(Expand::new()));
    assert_eq!(expand.layout(Constraints::unbounded(7, 4)), Size::new(7, 4));
}

#[test]
fn factory_attributes_are_kept() {
    let h = HStack::from_attributes(Some(4), None, Some(2), Some(1));
    assert_eq!(h.width, Some(4));
    assert_eq!(h.height, None);
    assert_eq!(h.min_width, Some(2));
    assert_eq!(h.min_height, Some(1));
    let z = ZStack::new(Some(3), Some(2));
    assert_eq!(z.width, Some(3));
    assert_eq!(z.height, Some(2));
    assert_eq!(z.min_width, None);
    assert_eq!(z.min_height, None);
    let mut v = VStack::new(None, None);
    v.update(Some(1), Some(2), Some(3), Some(4));
    assert_eq!((v.width, v.height, v.min_width, v.min_height), (Some(1), Some(2), Some(3), Some(4)));
}

#[test]
fn widget_kinds_are_named() {
    assert_eq!(Widget::HStack(HStack::new(None, None)).kind(), "HStack");
    assert_eq!(Widget::VStack(VStack::new(None, None)).kind(), "VStack");
    assert_eq!(Widget::ZStack(ZStack::new(None, None)).kind(), "ZStack");
    assert_eq!(Widget::Border(Border::new()).kind(), "Border");
    assert_eq!(Widget::Expand(Expand::new()).kind(), "Expand");
    assert_eq!(Widget::Offset(Offset::new(0, 0)).kind(), "Offset");
    assert_eq!(Widget::Text(Text::from_chars(vec![])).kind(), "Text");
}

#[test]
fn paint_clips_to_surface() {
    let mut t = text("wide");
    t.layout(Constraints::unbounded(10, 1));
    t.position(Pos::new(-2, 0));
    let buf = render(&t, 3, 1);
    // Cells left of the surface are dropped; the rest land shifted.
    assert_eq!(row_string(&buf, 0), "de ");
}

#[test]
fn backward_direction_budgets_from_the_right() {
    let mut children = vec![text("aaaa"), text("bbbb"), text("cccc")];
    let raw = layout_horizontal(&mut children, Constraints::unbounded(10, 1), Direction::Backward);
    assert_eq!(raw, Size::new(10, 1));
    assert_eq!(children[0].size.width, 2);
    assert_eq!(children[1].size.width, 4);
    assert_eq!(children[2].size.width, 4);
}
