//! The anchor container's independent, scaled sub-regions, and the layout's
//! idempotence.

use nui::anchor_container::{AnchorContainer, AnchorContainerProps, AnchorEntry};
use nui::button::{Button, ButtonProps};
use nui::element::Element;
use nui::geometry::{Anchor, AnchorX, AnchorY, Bounds, Scale, Size, Space, UNIT};
use nui::messages::Id;
use nui::vlist_container::{VListContainer, VListContainerProps};

fn child(id: u32, text_w: i64, text_h: i64) -> Button {
    let mut props = ButtonProps::new(Id(id));
    props.anchor = Anchor { x: AnchorX::Left, y: AnchorY::Top };
    props.text_size = Size { w: text_w * UNIT, h: text_h * UNIT };
    Button::new(props)
}

#[test]
fn entries_get_scaled_sizes_at_anchor_points() {
    let mut props = AnchorContainerProps::new(Id(100));
    props.entries.push(AnchorEntry {
        scale: Scale { x: 500, y: UNIT },
        anchor: Anchor { x: AnchorX::Right, y: AnchorY::Top },
        child: child(1, 0, 0),
    });
    let mut root = AnchorContainer::new(props);
    root.set_bounds(Bounds { x: 0, y: 0, size: Size { w: 200 * UNIT, h: 100 * UNIT } });
    // The child is placed at the anchor's reference point of the parent
    // size, with the parent size scaled by (0.5, 1.0).
    let c = &root.entries[0].child;
    assert_eq!(c.outer_bounds.x, 200 * UNIT);
    assert_eq!(c.outer_bounds.y, 0);
    assert_eq!(c.outer_bounds.size, Size { w: 100 * UNIT, h: 100 * UNIT });
}

#[test]
fn natural_size_is_the_overlay_of_the_children() {
    let mut props = AnchorContainerProps::new(Id(100));
    props.entries.push(AnchorEntry {
        scale: Scale { x: UNIT, y: UNIT },
        anchor: Anchor { x: AnchorX::Left, y: AnchorY::Top },
        child: child(1, 10, 20),
    });
    props.entries.push(AnchorEntry {
        scale: Scale { x: UNIT, y: UNIT },
        anchor: Anchor { x: AnchorX::Left, y: AnchorY::Top },
        child: child(2, 30, 5),
    });
    let root = AnchorContainer::new(props);
    assert_eq!(root.min_size(), Size { w: 30 * UNIT, h: 20 * UNIT });
    assert_eq!(root.space(), Space::Fill);
}

#[test]
fn set_bounds_is_idempotent() {
    let mut list_props = VListContainerProps::new(Id(100));
    list_props.children = vec![child(1, 4, 6), child(2, 8, 2)];
    let mut list = VListContainer::new(list_props);
    let b = Bounds { x: 7 * UNIT, y: 9 * UNIT, size: Size { w: 120 * UNIT, h: 80 * UNIT } };
    list.set_bounds(b);
    let own_first = list.bounds();
    let children_first: Vec<Bounds> =
        list.children.iter().map(|c| c.outer_bounds).collect();
    // The same input reproduces identical output.
    list.set_bounds(b);
    assert_eq!(list.bounds(), own_first);
    let children_second: Vec<Bounds> =
        list.children.iter().map(|c| c.outer_bounds).collect();
    assert_eq!(children_second, children_first);
}
