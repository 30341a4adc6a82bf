use editor_core::modes::{Editor, Mode};
use editor_core::terminal::{Key, KeyCode, KeyEventKind};
use editor_core::text::TextBuffer;
use editor_core::viewport::Viewport;

fn rel(key: KeyCode) -> Key {
    Key { kind: KeyEventKind::Release, key }
}

#[test]
fn viewport_new_starts_at_origin() {
    let vp = Viewport::new(80, 24);
    assert_eq!(vp.v_scroll, 0);
    assert_eq!(vp.h_scroll, 0);
    assert_eq!(vp.width, 80);
    assert_eq!(vp.height, 24);
}

#[test]
fn short_document_pins_scroll_to_top() {
    let mut vp = Viewport::new(80, 24);
    vp.scroll_to_cursor(9, 0, 10);
    assert_eq!(vp.v_scroll, 0);
}

#[test]
fn hundred_lines_down_to_row_sixty_centers_at_fifty() {
    // 100-line buffer, viewport height 20; cursor walks from row 0 to row
    // 60 by repeated Down: scroll ends at min(60 - 10, 80) = 50 and the
    // cursor's screen row is the midpoint 10.
    let chars: Vec<char> = "\n".repeat(99).chars().collect();
    let mut ed = Editor::with_buffer(TextBuffer::from_text(&chars));
    assert_eq!(ed.buffer.line_count(), 100);
    let mut vp = Viewport::new(80, 20);
    for _ in 0..60 {
        ed.handle_key(rel(KeyCode::Down));
        vp.scroll_to_cursor(ed.cursor.row, ed.cursor.col, ed.buffer.line_count());
    }
    assert_eq!(ed.cursor.row, 60);
    assert_eq!(vp.v_scroll, 50);
    assert_eq!(ed.cursor.row - vp.v_scroll, 10);
}

#[test]
fn scroll_pins_at_bottom() {
    let chars: Vec<char> = "\n".repeat(99).chars().collect();
    let mut ed = Editor::with_buffer(TextBuffer::from_text(&chars));
    let mut vp = Viewport::new(80, 20);
    for _ in 0..99 {
        ed.handle_key(rel(KeyCode::Down));
        vp.scroll_to_cursor(ed.cursor.row, ed.cursor.col, ed.buffer.line_count());
    }
    assert_eq!(ed.cursor.row, 99);
    // maximum scroll is line_count - height = 80
    assert_eq!(vp.v_scroll, 80);
    let screen_row = ed.cursor.row - vp.v_scroll;
    assert!(screen_row < vp.height);
}

#[test]
fn scroll_stays_within_bounds_under_random_walk() {
    let chars: Vec<char> = "\n".repeat(49).chars().collect();
    let mut ed = Editor::with_buffer(TextBuffer::from_text(&chars));
    let mut vp = Viewport::new(40, 8);
    let moves = [
        KeyCode::Down, KeyCode::Down, KeyCode::Down, KeyCode::Down, KeyCode::Down,
        KeyCode::Down, KeyCode::Down, KeyCode::Down, KeyCode::Down, KeyCode::Down,
        KeyCode::Up, KeyCode::Down, KeyCode::Up, KeyCode::Up, KeyCode::Up,
        KeyCode::Down, KeyCode::Down, KeyCode::Up, KeyCode::Down, KeyCode::Down,
    ];
    for m in moves {
        ed.handle_key(rel(m));
        vp.scroll_to_cursor(ed.cursor.row, ed.cursor.col, ed.buffer.line_count());
        let line_count = ed.buffer.line_count();
        let max_scroll = if line_count > vp.height { line_count - vp.height } else { 0 };
        assert!(vp.v_scroll <= max_scroll);
        assert!(vp.v_scroll <= ed.cursor.row);
        assert!(ed.cursor.row - vp.v_scroll < vp.height);
    }
}

#[test]
fn cursor_at_midpoint_leaves_scroll_alone() {
    let mut vp = Viewport::new(80, 20);
    vp.v_scroll = 30;
    // midpoint is 10; cursor at buffer row 40 sits exactly there
    vp.scroll_to_cursor(40, 0, 100);
    assert_eq!(vp.v_scroll, 30);
}

#[test]
fn cursor_off_midpoint_recenters() {
    let mut vp = Viewport::new(80, 20);
    vp.v_scroll = 30;
    // cursor at row 45, screen row 15, past the midpoint: recenter to 35
    vp.scroll_to_cursor(45, 0, 100);
    assert_eq!(vp.v_scroll, 35);
    // cursor at row 36, screen row 1, above the midpoint: recenter to 26
    let mut vp2 = Viewport::new(80, 20);
    vp2.v_scroll = 35;
    vp2.scroll_to_cursor(36, 0, 100);
    assert_eq!(vp2.v_scroll, 26);
}

#[test]
fn near_top_scroll_clamps_to_zero() {
    let mut vp = Viewport::new(80, 20);
    vp.v_scroll = 3;
    // cursor at row 2, above the midpoint: the exact delta would be
    // negative, so the scroll clamps at the top of the document
    vp.scroll_to_cursor(2, 0, 100);
    assert_eq!(vp.v_scroll, 0);
}

#[test]
fn horizontal_scroll_snaps_left_edge_to_cursor() {
    let mut vp = Viewport::new(10, 5);
    vp.h_scroll = 20;
    vp.scroll_to_cursor(0, 7, 100);
    assert_eq!(vp.h_scroll, 7);
}

#[test]
fn horizontal_scroll_advances_minimally() {
    let mut vp = Viewport::new(10, 5);
    // cursor at column 25 with width 10: left edge moves to 25 - 9 = 16
    vp.scroll_to_cursor(0, 25, 100);
    assert_eq!(vp.h_scroll, 16);
    // cursor inside the window: no change
    vp.scroll_to_cursor(0, 20, 100);
    assert_eq!(vp.h_scroll, 16);
}
