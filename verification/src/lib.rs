//! A retained-mode UI composition micro-framework: a tree of widgets that
//! negotiate layout, animate, and exchange events each frame, rendered
//! through an abstract drawing capability.
//!
//! All geometry and animation state is carried in fixed-point milli-units
//! (see [`geometry`]), so every layout and animation rule is exact integer
//! arithmetic with a proved contract.

pub mod geometry;
pub mod input;
pub mod messages;
pub mod element;
pub mod vlist_container;
pub mod anchor_container;
pub mod button;
pub mod expandable_button;
