//! The text overlay: where the cursor is on screen and in the world, and the
//! smoothed frame rate, one value per line.

use crate::cursor::Cursor;
use crate::fixed::{hundredths_text, lemma_two_decimals, push_hundredths, two_decimals};
use vstd::prelude::*;

verus! {

/// A point as the overlay shows it: each coordinate in hundredths.
#[derive(Clone, Copy, Debug, PartialEq, Eq, Structural)]
pub struct CentiPoint {
    pub x: i64,
    pub y: i64,
}

/// `Vec2(x, y)`, each coordinate with two digits after the point.
pub open spec fn point_text(p: CentiPoint) -> Seq<char> {
    "Vec2("@ + hundredths_text(p.x as int) + ", "@ + hundredths_text(p.y as int) + ")"@
}

/// The frame-rate line, present only once a smoothed sample is available.
pub open spec fn fps_line(fps: Option<i64>) -> Seq<char> {
    match fps {
        Some(f) => "FPS: "@ + hundredths_text(f as int) + "\n"@,
        None => Seq::empty(),
    }
}

/// The overlay's text for a frame: empty unless the cursor maps to a world
/// position; else the world position, the screen position and, when there
/// is one, the frame rate (`fps` in hundredths of a frame per second).
pub open spec fn overlay_text(cursor: Cursor<CentiPoint>, fps: Option<i64>) -> Seq<char> {
    match cursor {
        Cursor::Mapped { screen, world } => "World Pos: "@ + point_text(world) + "\n"@
            + "Screen Pos: "@ + point_text(screen) + "\n"@ + fps_line(fps),
        _ => Seq::empty(),
    }
}

/// The number of line breaks in `s`.
pub open spec fn line_breaks(s: Seq<char>) -> nat
    decreases s.len(),
{
    if s.len() == 0 {
        0
    } else {
        line_breaks(s.drop_last()) + (if s.last() == '\n' {
            1nat
        } else {
            0nat
        })
    }
}

proof fn lemma_line_breaks_add(a: Seq<char>, b: Seq<char>)
    ensures
        line_breaks(a + b) == line_breaks(a) + line_breaks(b),
    decreases b.len(),
{
    if b.len() == 0 {
        assert(a + b =~= a);
    } else {
        assert((a + b).drop_last() =~= a + b.drop_last());
        lemma_line_breaks_add(a, b.drop_last());
    }
}

proof fn lemma_no_line_breaks(s: Seq<char>)
    requires
        forall|i: int| 0 <= i < s.len() ==> s[i] != '\n',
    ensures
        line_breaks(s) == 0,
    decreases s.len(),
{
    if s.len() > 0 {
        lemma_no_line_breaks(s.drop_last());
    }
}

proof fn lemma_number_single_line(h: int)
    ensures
        line_breaks(hundredths_text(h)) == 0,
{
    lemma_two_decimals(h);
    let s = hundredths_text(h);
    assert forall|i: int| 0 <= i < s.len() implies s[i] != '\n' by {
        if i < s.len() - 3 {
            assert(two_decimals(s));
        }
    }
    lemma_no_line_breaks(s);
}

proof fn lemma_point_single_line(p: CentiPoint)
    ensures
        line_breaks(point_text(p)) == 0,
{
    reveal_strlit("Vec2(");
    reveal_strlit(", ");
    reveal_strlit(")");
    lemma_no_line_breaks("Vec2("@);
    lemma_no_line_breaks(", "@);
    lemma_no_line_breaks(")"@);
    lemma_number_single_line(p.x as int);
    lemma_number_single_line(p.y as int);
    let a = "Vec2("@ + hundredths_text(p.x as int);
    let b = a + ", "@;
    let c = b + hundredths_text(p.y as int);
    lemma_line_breaks_add("Vec2("@, hundredths_text(p.x as int));
    lemma_line_breaks_add(a, ", "@);
    lemma_line_breaks_add(b, hundredths_text(p.y as int));
    lemma_line_breaks_add(c, ")"@);
}

/// With the cursor mapped into the world, the overlay holds two lines, or
/// three once a frame-rate sample is available, each ended by a line break.
pub proof fn lemma_overlay_lines(cursor: Cursor<CentiPoint>, fps: Option<i64>)
    requires
        cursor is Mapped,
    ensures
        line_breaks(overlay_text(cursor, fps)) == (if fps is Some {
            3nat
        } else {
            2nat
        }),
        overlay_text(cursor, fps).len() > 0,
        overlay_text(cursor, fps).last() == '\n',
{
    reveal_strlit("World Pos: ");
    reveal_strlit("Screen Pos: ");
    reveal_strlit("FPS: ");
    reveal_strlit("\n");
    lemma_no_line_breaks("World Pos: "@);
    lemma_no_line_breaks("Screen Pos: "@);
    lemma_no_line_breaks("FPS: "@);
    lemma_no_line_breaks(Seq::<char>::empty());
    assert(line_breaks("\n"@) == 1) by {
        assert("\n"@.drop_last() =~= Seq::<char>::empty());
    }
    let screen = cursor->screen;
    let world = cursor->world;
    lemma_point_single_line(screen);
    lemma_point_single_line(world);
    let a = "World Pos: "@ + point_text(world);
    let b = a + "\n"@;
    let c = b + "Screen Pos: "@;
    let d = c + point_text(screen);
    let e = d + "\n"@;
    lemma_line_breaks_add("World Pos: "@, point_text(world));
    lemma_line_breaks_add(a, "\n"@);
    lemma_line_breaks_add(b, "Screen Pos: "@);
    lemma_line_breaks_add(c, point_text(screen));
    lemma_line_breaks_add(d, "\n"@);
    lemma_line_breaks_add(e, fps_line(fps));
    if let Some(f) = fps {
        lemma_number_single_line(f as int);
        lemma_line_breaks_add("FPS: "@, hundredths_text(f as int));
        lemma_line_breaks_add("FPS: "@ + hundredths_text(f as int), "\n"@);
    } else {
        assert(e + fps_line(fps) =~= e);
    }
}

fn push_point(out: &mut String, p: &CentiPoint)
    ensures
        final(out)@ == old(out)@ + point_text(*p),
{
    out.append("Vec2(");
    push_hundredths(out, p.x);
    out.append(", ");
    push_hundredths(out, p.y);
    out.append(")");
    assert(final(out)@ =~= old(out)@ + point_text(*p));
}

/// Rewrites the overlay for a frame in which the cursor was `cursor` and the
/// smoothed frame rate, in hundredths, was `fps`. The text is cleared first;
/// it stays empty unless the cursor maps to a world position.
pub fn display_info(text: &mut String, cursor: &Cursor<CentiPoint>, fps: Option<i64>)
    ensures
        final(text)@ == overlay_text(*cursor, fps),
        !(cursor is Mapped) ==> final(text)@.len() == 0,
{
    *text = String::new();
    if let Cursor::Mapped { screen, world } = cursor {
        text.append("World Pos: ");
        push_point(text, world);
        text.append("\n");
        text.append("Screen Pos: ");
        push_point(text, screen);
        text.append("\n");
        if let Some(f) = fps {
            text.append("FPS: ");
            push_hundredths(text, f);
            text.append("\n");
        }
    }
    assert(text@ =~= overlay_text(*cursor, fps));
}

} // verus!
