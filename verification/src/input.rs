//! Input handling: the pointer classifier.

pub mod mouse;

pub use mouse::{handle_mouse, CBAct, MouseAct};
