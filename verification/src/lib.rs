//! A terminal widget's core: the state behind an embedded terminal, what
//! keyboard and mouse events do to it, how its contents are searched, copied
//! and laid out for painting.

pub mod backend;
pub mod backend_laws;
pub mod clock;
pub mod geometry;
pub mod highlight;
pub mod input;
pub mod input_laws;
pub mod keyboard;
pub mod laws;
pub mod mode;
pub mod mouse;
pub mod paint;
pub mod paint_laws;
pub mod report;
pub mod search;
pub mod search_laws;
pub mod sequence;
pub mod sequence_laws;
pub mod size;
pub mod terminal;
pub mod text;
pub mod text_laws;
pub mod view;
pub mod view_laws;
