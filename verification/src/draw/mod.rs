pub mod buffer;
pub mod box_drawing;
pub mod dim;
pub mod meter;
pub mod text_edit;
pub mod layout;
pub mod graph;
