//! The tracked square: each frame it moves to the cursor's world position.

use crate::cursor::Cursor;
use vstd::prelude::*;

verus! {

/// The depth at which the square is drawn, in front of the background.
pub const SQUARE_DEPTH: i64 = 1;

/// Where the square stands: a point of the world plane and a depth.
#[derive(Clone, Copy, Debug)]
pub struct Placement<P> {
    pub at: P,
    pub depth: i64,
}

impl<P> Placement<P> {
    /// The square's placement at startup: at `origin`, at the square's depth.
    pub fn start(origin: P) -> (r: Placement<P>)
        ensures
            r.at == origin,
            r.depth == SQUARE_DEPTH,
    {
        Placement { at: origin, depth: SQUARE_DEPTH }
    }
}

/// The square's placement after a frame in which the cursor was `cursor`:
/// on the cursor's world position when there is one, else where it was.
pub open spec fn followed<P>(square: Placement<P>, cursor: Cursor<P>) -> Placement<P> {
    match cursor {
        Cursor::Mapped { world, .. } => Placement { at: world, depth: SQUARE_DEPTH },
        _ => square,
    }
}

/// Moves the square to the cursor's world position, at the square's depth.
/// Without a cursor, or when the camera could not map it, the square stays.
pub fn update_square<P: Copy>(square: &mut Placement<P>, cursor: &Cursor<P>)
    ensures
        *final(square) == followed(*old(square), *cursor),
        cursor is Mapped ==> final(square).at == cursor->world && final(square).depth
            == SQUARE_DEPTH,
        !(cursor is Mapped) ==> *final(square) == *old(square),
{
    if let Cursor::Mapped { world, .. } = cursor {
        *square = Placement { at: *world, depth: SQUARE_DEPTH };
    }
}

/// The square's placement after the frames `cursors`, in order, from `square`.
pub open spec fn after_frames<P>(square: Placement<P>, cursors: Seq<Cursor<P>>) -> Placement<P>
    decreases cursors.len(),
{
    if cursors.len() == 0 {
        square
    } else {
        followed(after_frames(square, cursors.drop_last()), cursors.last())
    }
}

/// After any run of frames, the square stands on the world position of the
/// last frame whose cursor mapped into the world, at the square's depth:
/// frames after it, with the cursor outside or unmapped, leave it there.
pub proof fn lemma_square_keeps_last_mapped<P>(
    start: Placement<P>,
    cursors: Seq<Cursor<P>>,
    i: int,
)
    requires
        0 <= i < cursors.len(),
        cursors[i] is Mapped,
        forall|j: int| i < j < cursors.len() ==> !(#[trigger] cursors[j] is Mapped),
    ensures
        after_frames(start, cursors) == (Placement { at: cursors[i]->world, depth: SQUARE_DEPTH }),
    decreases cursors.len(),
{
    if i < cursors.len() - 1 {
        let rest = cursors.drop_last();
        assert forall|j: int| i < j < rest.len() implies !(#[trigger] rest[j] is Mapped) by {
            assert(rest[j] == cursors[j]);
        }
        lemma_square_keeps_last_mapped(start, rest, i);
        assert(!(cursors[cursors.len() - 1] is Mapped));
        assert(rest[i] == cursors[i]);
    }
}

/// While no frame's cursor has mapped into the world, the square stays where
/// it started.
pub proof fn lemma_square_stays_unmapped<P>(start: Placement<P>, cursors: Seq<Cursor<P>>)
    requires
        forall|j: int| 0 <= j < cursors.len() ==> !(#[trigger] cursors[j] is Mapped),
    ensures
        after_frames(start, cursors) == start,
    decreases cursors.len(),
{
    if cursors.len() > 0 {
        let rest = cursors.drop_last();
        assert forall|j: int| 0 <= j < rest.len() implies !(#[trigger] rest[j] is Mapped) by {
            assert(rest[j] == cursors[j]);
        }
        lemma_square_stays_unmapped(start, rest);
        assert(!(cursors[cursors.len() - 1] is Mapped));
    }
}

} // verus!
