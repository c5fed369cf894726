//! A cursor-tracking demo's per-frame logic: a square that follows the mouse
//! cursor and a text overlay that reports where the cursor is.

pub mod cursor;
pub mod fixed;
pub mod follow;
pub mod overlay;

pub use cursor::Cursor;
pub use follow::{update_square, Placement, SQUARE_DEPTH};
pub use overlay::{display_info, CentiPoint};
