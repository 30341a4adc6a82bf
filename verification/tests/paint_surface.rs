use editor_core::render::Buffer;
use editor_core::terminal::{Color, Pos};

#[test]
fn new_surface_is_one_empty_row() {
    let b = Buffer::new();
    assert_eq!(b.buf.len(), 1);
    assert_eq!(b.buf[0].len(), 0);
    assert_eq!(b.pos.to_tuple(), (0, 0));
    assert_eq!(b.color, Color::White);
}

#[test]
fn char_at_pos_writes_and_advances() {
    let mut b = Buffer::new();
    b.char_at_pos('h');
    b.char_at_pos('i');
    assert_eq!(b.buf[0].len(), 2);
    assert_eq!(b.buf[0][0].text, 'h');
    assert_eq!(b.buf[0][1].text, 'i');
    assert_eq!(b.pos.to_tuple(), (2, 0));
}

#[test]
fn newline_moves_pen_to_next_row_start() {
    let mut b = Buffer::new();
    b.char_at_pos('a');
    b.char_at_pos('\n');
    b.char_at_pos('b');
    assert_eq!(b.pos.to_tuple(), (1, 1));
    assert_eq!(b.buf.len(), 2);
    assert_eq!(b.buf[1][0].text, 'b');
}

#[test]
fn writing_past_the_grid_pads_with_blanks() {
    let mut b = Buffer::new();
    b.set_cursor(2, 1);
    b.char_at_pos('x');
    assert_eq!(b.buf.len(), 2);
    assert_eq!(b.buf[1].len(), 3);
    assert_eq!(b.buf[1][0].text, ' ');
    assert_eq!(b.buf[1][0].color, Color::White);
    assert_eq!(b.buf[1][1].text, ' ');
    assert_eq!(b.buf[1][2].text, 'x');
}

#[test]
fn cells_take_the_pen_color() {
    let mut b = Buffer::new();
    b.set_color(Color::Yellow);
    b.char_at_pos('y');
    assert_eq!(b.buf[0][0].color, Color::Yellow);
    b.set_color(Color::Red);
    b.char_at_pos('r');
    assert_eq!(b.buf[0][0].color, Color::Yellow);
    assert_eq!(b.buf[0][1].color, Color::Red);
}

#[test]
fn print_writes_each_character() {
    let mut b = Buffer::new();
    b.print("ab");
    assert_eq!(b.buf[0][0].text, 'a');
    assert_eq!(b.buf[0][1].text, 'b');
    assert_eq!(b.pos.to_tuple(), (2, 0));
}

#[test]
fn println_ends_the_row() {
    let mut b = Buffer::new();
    b.println("ab");
    assert_eq!(b.pos.to_tuple(), (0, 1));
    // rows are created lazily: the next write opens row 1; the newline
    // itself only padded row 0 up to the pen column
    assert_eq!(b.buf.len(), 1);
    assert_eq!(b.buf[0].len(), 3);
    assert_eq!(b.buf[0][2].text, ' ');
}

#[test]
fn into_renderable_compresses_whole_grid() {
    let mut b = Buffer::new();
    b.println("Hello World!");
    b.set_color(Color::Yellow);
    b.print("hi");
    let runs = b.into_renderable();
    assert_eq!(runs.len(), 2);
    assert_eq!(runs[0].color, Color::White);
    // the newline padded one blank cell at the pen column before breaking
    assert_eq!(runs[0].text, "Hello World! \n");
    assert_eq!(runs[1].color, Color::Yellow);
    // the second row's newline joins the last run
    assert_eq!(runs[1].text, "hi\n");
}

#[test]
fn into_renderable_keeps_color_runs_across_rows() {
    let mut b = Buffer::new();
    b.println("a");
    b.print("b");
    let runs = b.into_renderable();
    assert_eq!(runs.len(), 1);
    assert_eq!(runs[0].text, "a \nb\n");
    assert_eq!(runs[0].color, Color::White);
}

#[test]
fn pos_conversions_round_trip() {
    let p = Pos::from(3, 4);
    assert_eq!(p.to_tuple(), (3, 4));
    let q = Pos::from_tuple((5, 6));
    assert_eq!(q.to_tuple(), (5, 6));
    let mut r = p.clone();
    assert_eq!(r.to_tuple(), (3, 4));
    r.set(q);
    assert_eq!(r.to_tuple(), (5, 6));
}

#[test]
fn writing_at_the_largest_column_stays_in_range() {
    let mut b = Buffer::new();
    b.set_cursor(u16::MAX - 1, 0);
    b.char_at_pos('x');
    assert_eq!(b.pos.to_tuple(), (u16::MAX, 0));
    assert_eq!(b.buf[0].len(), u16::MAX as usize);
    assert_eq!(b.buf[0][u16::MAX as usize - 1].text, 'x');
}

#[test]
fn breaking_at_the_largest_row_stays_in_range() {
    let mut b = Buffer::new();
    b.set_cursor(0, u16::MAX - 1);
    b.char_at_pos('\n');
    assert_eq!(b.pos.to_tuple(), (0, u16::MAX));
}
