use cursor_hud::{display_info, update_square, CentiPoint, Cursor, Placement, SQUARE_DEPTH};

fn pt(x: i64, y: i64) -> CentiPoint {
    CentiPoint { x, y }
}

#[test]
fn square_starts_at_origin_in_front() {
    let sq = Placement::start((0i64, 0i64));
    assert_eq!(sq.at, (0, 0));
    assert_eq!(sq.depth, 1);
    assert_eq!(SQUARE_DEPTH, 1);
}

#[test]
fn square_follows_mapped_cursor() {
    // A cursor at (100, 100) in a 1280 x 720 window, seen by a camera at the
    // origin, maps to (-540, 260) in the world.
    let mut sq = Placement::start((0i64, 0i64));
    let cursor = Cursor::Mapped { screen: (100, 100), world: (-540, 260) };
    update_square(&mut sq, &cursor);
    assert_eq!(sq.at, (-540, 260));
    assert_eq!(sq.depth, 1);
}

#[test]
fn square_follows_every_frame() {
    let mut sq = Placement::start((0i64, 0i64));
    for (sx, sy) in [(0i64, 0i64), (640, 360), (1279, 719), (3, 700)] {
        let world = (sx - 640, 360 - sy);
        update_square(&mut sq, &Cursor::Mapped { screen: (sx, sy), world });
        assert_eq!(sq.at, world);
        assert_eq!(sq.depth, SQUARE_DEPTH);
    }
}

#[test]
fn square_stays_when_cursor_leaves() {
    let mut sq = Placement::start((0i64, 0i64));
    update_square(&mut sq, &Cursor::Mapped { screen: (100, 100), world: (-540, 260) });
    update_square(&mut sq, &Cursor::Outside);
    assert_eq!(sq.at, (-540, 260));
    assert_eq!(sq.depth, 1);
    update_square(&mut sq, &Cursor::Outside);
    assert_eq!(sq.at, (-540, 260));
}

#[test]
fn square_stays_when_unmapped() {
    let mut sq = Placement::start((7i64, 8i64));
    update_square(&mut sq, &Cursor::Unmapped((100, 100)));
    assert_eq!(sq.at, (7, 8));
    assert_eq!(sq.depth, 1);
}

#[test]
fn overlay_with_cursor_no_fps() {
    let mut text = String::new();
    let cursor = Cursor::Mapped { screen: pt(10000, 10000), world: pt(-54000, 26000) };
    display_info(&mut text, &cursor, None);
    assert_eq!(text, "World Pos: Vec2(-540.00, 260.00)\nScreen Pos: Vec2(100.00, 100.00)\n");
    assert_eq!(text.matches('\n').count(), 2);
}

#[test]
fn overlay_with_cursor_and_fps() {
    let mut text = String::from("stale");
    let cursor = Cursor::Mapped { screen: pt(12345, 67), world: pt(-1, 5) };
    display_info(&mut text, &cursor, Some(5994));
    assert_eq!(
        text,
        "World Pos: Vec2(-0.01, 0.05)\nScreen Pos: Vec2(123.45, 0.67)\nFPS: 59.94\n"
    );
    assert_eq!(text.lines().count(), 3);
}

#[test]
fn overlay_cleared_when_cursor_outside() {
    let mut text = String::from("World Pos: Vec2(1.00, 2.00)\n");
    display_info(&mut text, &Cursor::Outside, Some(6000));
    assert_eq!(text, "");
}

#[test]
fn overlay_cleared_when_unmapped() {
    let mut text = String::from("old");
    display_info(&mut text, &Cursor::Unmapped(pt(100, 100)), None);
    assert_eq!(text, "");
}

#[test]
fn cursor_outside_clears_overlay_and_keeps_square() {
    let mut sq = Placement::start((0i64, 0i64));
    let mut text = String::new();
    update_square(&mut sq, &Cursor::Mapped { screen: (100, 100), world: (-540, 260) });
    display_info(&mut text, &Cursor::Mapped { screen: pt(10000, 10000), world: pt(-54000, 26000) }, None);
    assert!(!text.is_empty());
    update_square(&mut sq, &Cursor::Outside);
    display_info(&mut text, &Cursor::Outside, None);
    assert_eq!(text, "");
    assert_eq!(sq.at, (-540, 260));
    assert_eq!(sq.depth, 1);
}
