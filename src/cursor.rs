//! Where the cursor stands in one frame, as the host runtime reports it.

use vstd::prelude::*;

verus! {

/// The cursor in one frame. `P` is the host's point type: screen positions
/// are pixels from the window's top-left corner, world positions are in the
/// camera's world space.
#[derive(Clone, Copy, Debug)]
pub enum Cursor<P> {
    /// No window, or the cursor is outside its client area.
    Outside,
    /// The cursor is inside the window, but the camera could not map its
    /// screen position into the world.
    Unmapped(P),
    /// The cursor is inside the window at `screen`, which the camera maps to
    /// `world`.
    Mapped { screen: P, world: P },
}

} // verus!
