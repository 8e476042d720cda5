//! Packing of child rectangles inside a parent rectangle, and the views built on it.
pub mod geom;
pub mod pack;
pub mod layout;
pub mod view;
pub mod packed_view;
pub mod laws;
pub mod top_bar;
pub mod image;
pub mod background;
