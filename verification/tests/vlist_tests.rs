//! The vertical list's two-pass layout, on concrete trees.

use nui::button::{Button, ButtonProps};
use nui::element::Element;
use nui::geometry::{Anchor, AnchorX, AnchorY, Bounds, Size, Space, UNIT};
use nui::messages::Id;
use nui::vlist_container::{VListContainer, VListContainerProps};

fn child(id: u32, space: Space, text_w: i64, text_h: i64) -> Button {
    let mut props = ButtonProps::new(Id(id));
    props.anchor = Anchor { x: AnchorX::Left, y: AnchorY::Top };
    props.space = space;
    props.text_size = Size { w: text_w * UNIT, h: text_h * UNIT };
    Button::new(props)
}

fn vlist(children: Vec<Button>, space: Space, spacing: i64) -> VListContainer<Button> {
    let mut props = VListContainerProps::new(Id(100));
    props.children = children;
    props.space = space;
    props.spacing = spacing;
    VListContainer::new(props)
}

#[test]
fn two_fill_children_split_the_height_equally() {
    let mut list = vlist(
        vec![child(1, Space::Fill, 0, 0), child(2, Space::Fill, 0, 0)],
        Space::Fill,
        5 * UNIT,
    );
    list.set_bounds(Bounds { x: 0, y: 0, size: Size { w: 100 * UNIT, h: 205 * UNIT } });
    // (205 - 5) / 2 = 100 each.
    let first = &list.children[0];
    let second = &list.children[1];
    assert_eq!(first.outer_bounds.size.h, 100 * UNIT);
    assert_eq!(second.outer_bounds.size.h, 100 * UNIT);
    assert_eq!(first.outer_bounds.size.w, 100 * UNIT);
    // The second child sits one resulting height plus one spacing below.
    assert_eq!(second.outer_bounds.y, first.outer_bounds.y + 100 * UNIT + 5 * UNIT);
}

#[test]
fn minimize_child_keeps_its_natural_height_and_fill_takes_the_rest() {
    let mut list = vlist(
        vec![child(1, Space::Minimize, 10, 30), child(2, Space::Fill, 0, 0)],
        Space::Fill,
        0,
    );
    list.set_bounds(Bounds { x: 0, y: 0, size: Size { w: 100 * UNIT, h: 100 * UNIT } });
    let minimized = &list.children[0];
    let filler = &list.children[1];
    // The minimizing child receives exactly its natural size.
    assert_eq!(minimized.outer_bounds.size, Size { w: 10 * UNIT, h: 30 * UNIT });
    // The filling child receives what is left: 100 - 30 = 70.
    assert_eq!(filler.outer_bounds.size.h, 70 * UNIT);
    assert_eq!(filler.outer_bounds.y, 30 * UNIT);
}

#[test]
fn zero_children_lay_out_without_padding() {
    let mut list: VListContainer<Button> = vlist(vec![], Space::Fill, 5 * UNIT);
    list.set_bounds(Bounds { x: 3, y: 4, size: Size { w: 10 * UNIT, h: 20 * UNIT } });
    assert_eq!(list.bounds(), Bounds { x: 3, y: 4, size: Size { w: 10 * UNIT, h: 20 * UNIT } });
    assert_eq!(list.min_size(), Size { w: 0, h: 0 });
}

#[test]
fn no_fill_children_distributes_nothing() {
    let mut list = vlist(vec![child(1, Space::Minimize, 10, 30)], Space::Fill, 0);
    list.set_bounds(Bounds { x: 0, y: 0, size: Size { w: 100 * UNIT, h: 100 * UNIT } });
    // The one minimizing child keeps its natural size; the free height goes
    // nowhere.
    assert_eq!(list.children[0].outer_bounds.size, Size { w: 10 * UNIT, h: 30 * UNIT });
}

#[test]
fn minimizing_container_measures_its_children() {
    let mut list = vlist(
        vec![child(1, Space::Minimize, 10, 20), child(2, Space::Minimize, 30, 40)],
        Space::Minimize,
        5 * UNIT,
    );
    // The container's natural size: widest child by summed heights.
    assert_eq!(list.min_size(), Size { w: 30 * UNIT, h: 60 * UNIT });
    list.set_bounds(Bounds { x: 0, y: 0, size: Size { w: 999 * UNIT, h: 999 * UNIT } });
    // Minimizing container: measured minimum plus one gap of padding.
    assert_eq!(list.bounds().size, Size { w: 30 * UNIT, h: 65 * UNIT });
}

#[test]
fn all_bounds_walks_the_whole_subtree() {
    let mut list = vlist(
        vec![child(1, Space::Fill, 0, 0), child(2, Space::Fill, 0, 0)],
        Space::Fill,
        0,
    );
    list.set_bounds(Bounds { x: 0, y: 0, size: Size { w: 10 * UNIT, h: 10 * UNIT } });
    let all = list.all_bounds();
    assert_eq!(all.len(), 3);
    assert_eq!(all[0], list.bounds());
}
