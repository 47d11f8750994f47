//! What stands where on the screen.

pub mod geometry;
pub mod layout;
pub mod lyrics;
pub mod now_playing;
pub mod overlays;
pub mod queue;
pub mod scene;
pub mod screen;
pub mod words;

pub use screen::render;
pub use words::{center_v, fmt_ms, truncate};
