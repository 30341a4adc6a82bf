//! The renderer. A `Colors` value is one terminal cell: a character with
//! its resolved color. A `Renderable_Colors` value is a run: a maximal
//! stretch of consecutive same-colored characters, so that the terminal
//! layer sends one color change per transition instead of one per
//! character. `Buffer` is a free-form paint surface: a grid of cells
//! written through a moving pen position, compressed into runs by
//! `into_renderable`. `render_region` paints only the viewport rectangle,
//! row by row, so redraw cost is bounded by the window size.

use vstd::prelude::*;
use vstd::string::StrSliceExecFns;
use crate::highlight::{highlight_colors, unflatten_colors, Tokenizer};
use crate::modes::{ed_wf, Editor};
use crate::terminal::{Color, Pos};
use crate::text::{TextBuffer, lines_wf};
use crate::viewport::{hscroll_spec, max_v_scroll, vscroll_spec, Viewport};

verus! {

/// One terminal cell: a character and its resolved color.
#[derive(Clone, Copy, PartialEq, Eq, Structural, Debug)]
pub struct Colors {
    pub color: Color,
    pub text: char,
}

/// Builds one cell, as a spec value.
pub open spec fn cell_spec(color: Color, text: char) -> Colors {
    Colors { color, text }
}

impl Colors {
    /// Builds one cell.
    pub fn of(color: Color, text: char) -> (c: Self)
        ensures
            c == (Colors { color, text }),
    {
        Colors { color, text }
    }
}

/// A run of consecutive same-colored characters, ready for emission.
#[allow(non_camel_case_types)]
pub struct Renderable_Colors {
    pub color: Color,
    pub text: String,
}

/// The mathematical value of a run: its color and its characters.
#[verifier::ext_equal]
pub ghost struct RunView {
    pub color: Color,
    pub text: Seq<char>,
}

impl View for Renderable_Colors {
    type V = RunView;

    open spec fn view(&self) -> RunView {
        RunView { color: self.color, text: self.text@ }
    }
}

/// The mathematical value of a vector of runs.
pub open spec fn runs_view(rs: Seq<Renderable_Colors>) -> Seq<RunView> {
    rs.map_values(|r: Renderable_Colors| r@)
}

/// Run compression, one cell at a time: a cell of the same color as the
/// last run joins it, any other cell opens a new run.
pub open spec fn add_cell_spec(runs: Seq<RunView>, cell: Colors) -> Seq<RunView> {
    if runs.len() > 0 && runs.last().color == cell.color {
        runs.update(
            runs.len() - 1,
            RunView { color: cell.color, text: runs.last().text.push(cell.text) },
        )
    } else {
        runs.push(RunView { color: cell.color, text: seq![cell.text] })
    }
}

/// Run compression over a whole row of cells, left to right.
pub open spec fn add_cells_spec(runs: Seq<RunView>, cells: Seq<Colors>) -> Seq<RunView>
    decreases cells.len(),
{
    if cells.len() == 0 {
        runs
    } else {
        add_cells_spec(add_cell_spec(runs, cells.first()), cells.drop_first())
    }
}

/// The runs of one row of cells, starting from nothing.
pub open spec fn runs_of_cells_spec(cells: Seq<Colors>) -> Seq<RunView> {
    add_cells_spec(Seq::<RunView>::empty(), cells)
}

/// Adding cells never shrinks the runs, and leaves at least one run
/// whenever there was one or a cell arrives.
pub proof fn lemma_add_cells_len(runs: Seq<RunView>, cells: Seq<Colors>)
    ensures
        add_cells_spec(runs, cells).len() >= runs.len(),
        runs.len() > 0 || cells.len() > 0 ==> add_cells_spec(runs, cells).len() >= 1,
    decreases cells.len(),
{
    if cells.len() > 0 {
        lemma_add_cells_len(add_cell_spec(runs, cells.first()), cells.drop_first());
    }
}

/// Relies on String::push: it appends exactly the given character to the
/// end of the string.
#[verifier::external_body]
fn push_char(s: &mut String, c: char)
    ensures
        final(s)@ == old(s)@.push(c),
{
    s.push(c);
}

/// Appends one cell to a vector of runs, as `add_cell_spec` says.
fn push_cell(r: &mut Vec<Renderable_Colors>, cell: Colors)
    ensures
        runs_view(final(r)@) == add_cell_spec(runs_view(old(r)@), cell),
        final(r)@.len() >= old(r)@.len(),
        final(r)@.len() >= 1,
{
    let n = r.len();
    if n > 0 {
        let same = r[n - 1].color == cell.color;
        if same {
            let mut last = r.pop().unwrap();
            push_char(&mut last.text, cell.text);
            r.push(last);
            proof {
                assert(runs_view(r@) =~~= add_cell_spec(runs_view(old(r)@), cell));
            }
            return ;
        }
    }
    let mut text = String::new();
    push_char(&mut text, cell.text);
    r.push(Renderable_Colors { color: cell.color, text });
    proof {
        assert(runs_view(r@) =~~= add_cell_spec(runs_view(old(r)@), cell));
    }
}

/// Appends a whole row of cells to a vector of runs.
fn push_cells(r: &mut Vec<Renderable_Colors>, cells: &Vec<Colors>)
    ensures
        runs_view(final(r)@) == add_cells_spec(runs_view(old(r)@), cells@),
        final(r)@.len() >= old(r)@.len(),
        old(r)@.len() > 0 || cells@.len() > 0 ==> final(r)@.len() >= 1,
{
    let n = cells.len();
    let mut i: usize = 0;
    proof {
        assert(cells@.skip(0) =~= cells@);
    }
    while i < n
        invariant
            i <= n,
            n == cells@.len(),
            add_cells_spec(runs_view(r@), cells@.skip(i as int)) == add_cells_spec(
                runs_view(old(r)@),
                cells@,
            ),
            r@.len() >= old(r)@.len(),
            i > 0 ==> r@.len() >= 1,
        decreases n - i,
    {
        proof {
            assert(cells@.skip(i as int).first() == cells@[i as int]);
            assert(cells@.skip(i as int).drop_first() =~= cells@.skip(i + 1));
        }
        push_cell(r, cells[i]);
        i = i + 1;
    }
    proof {
        assert(cells@.skip(n as int) =~= Seq::<Colors>::empty());
        lemma_add_cells_len(runs_view(old(r)@), cells@);
    }
}

/// Compresses one row of cells into runs.
pub fn compress_cells(cells: &Vec<Colors>) -> (r: Vec<Renderable_Colors>)
    ensures
        runs_view(r@) == runs_of_cells_spec(cells@),
{
    let mut r: Vec<Renderable_Colors> = Vec::new();
    proof {
        assert(runs_view(r@) =~= Seq::<RunView>::empty());
    }
    push_cells(&mut r, cells);
    r
}

/// The cells of one buffer line that the viewport shows: characters from
/// column `h` on, at most `w` of them, each with its color. Columns past
/// the end of the line are skipped, not padded.
pub open spec fn visible_cells_spec(line: Seq<char>, cols: Seq<Color>, h: int, w: int) -> Seq<
    Colors,
> {
    if h >= line.len() {
        Seq::<Colors>::empty()
    } else {
        let end = if h + w <= line.len() {
            h + w
        } else {
            line.len() as int
        };
        Seq::new((end - h) as nat, |j: int| cell_spec(cols[h + j], line[h + j]))
    }
}

/// Builds the visible cells of one line.
pub fn visible_cells(line: &Vec<char>, cols: &Vec<Color>, h_scroll: usize, width: usize) -> (cells:
    Vec<Colors>)
    requires
        cols@.len() == line@.len(),
    ensures
        cells@ =~= visible_cells_spec(line@, cols@, h_scroll as int, width as int),
{
    let mut cells: Vec<Colors> = Vec::new();
    let len = line.len();
    if h_scroll >= len {
        return cells;
    }
    let rem = len - h_scroll;
    let take = if width <= rem {
        width
    } else {
        rem
    };
    let mut j: usize = 0;
    while j < take
        invariant
            j <= take,
            len == line@.len(),
            cols@.len() == line@.len(),
            h_scroll < len,
            take <= len - h_scroll,
            cells@.len() == j,
            forall|k: int|
                0 <= k < j ==> #[trigger] cells@[k] == cell_spec(
                    cols@[h_scroll + k],
                    line@[h_scroll + k],
                ),
        decreases take - j,
    {
        let color = cols[h_scroll + j];
        let ch = line[h_scroll + j];
        cells.push(Colors::of(color, ch));
        j = j + 1;
    }
    proof {
        let s = visible_cells_spec(line@, cols@, h_scroll as int, width as int);
        assert(s.len() == take);
        assert forall|k: int| 0 <= k < take implies cells@[k] == s[k] by {
            assert(cells@[k] == cell_spec(cols@[h_scroll + k], line@[h_scroll + k]));
        }
    }
    cells
}

/// How many buffer rows the viewport shows.
pub open spec fn visible_row_count_spec(line_count: int, v_scroll: int, height: int) -> int {
    if v_scroll >= line_count {
        0
    } else if line_count - v_scroll < height {
        line_count - v_scroll
    } else {
        height
    }
}

/// Paints the viewport rectangle: one vector of runs per visible row,
/// each row the compression of its visible cells. Rows and columns
/// outside the rectangle are skipped entirely.
pub fn render_region(tb: &TextBuffer, vp: &Viewport, line_colors: &Vec<Vec<Color>>) -> (rows: Vec<
    Vec<Renderable_Colors>,
>)
    requires
        lines_wf(tb@),
        line_colors@.len() == tb@.len(),
        forall|row: int|
            0 <= row < tb@.len() ==> #[trigger] line_colors@[row]@.len() == tb@[row].len(),
    ensures
        rows@.len() == visible_row_count_spec(
            tb@.len() as int,
            vp.v_scroll as int,
            vp.height as int,
        ),
        forall|i: int|
            0 <= i < rows@.len() ==> runs_view(#[trigger] rows@[i]@) == runs_of_cells_spec(
                visible_cells_spec(
                    tb@[vp.v_scroll + i],
                    line_colors@[vp.v_scroll + i]@,
                    vp.h_scroll as int,
                    vp.width as int,
                ),
            ),
{
    let mut rows: Vec<Vec<Renderable_Colors>> = Vec::new();
    let line_count = tb.line_count();
    if vp.v_scroll >= line_count {
        return rows;
    }
    let rem = line_count - vp.v_scroll;
    let count = if vp.height <= rem {
        vp.height
    } else {
        rem
    };
    let mut i: usize = 0;
    while i < count
        invariant
            i <= count,
            line_count == tb@.len(),
            line_colors@.len() == tb@.len(),
            forall|row: int|
                0 <= row < tb@.len() ==> #[trigger] line_colors@[row]@.len() == tb@[row].len(),
            vp.v_scroll < line_count,
            count <= line_count - vp.v_scroll,
            rows@.len() == i,
            forall|k: int|
                0 <= k < i ==> runs_view(#[trigger] rows@[k]@) == runs_of_cells_spec(
                    visible_cells_spec(
                        tb@[vp.v_scroll + k],
                        line_colors@[vp.v_scroll + k]@,
                        vp.h_scroll as int,
                        vp.width as int,
                    ),
                ),
        decreases count - i,
    {
        let row = vp.v_scroll + i;
        let line = tb.line(row);
        proof {
            assert(line@ =~= tb@[row as int]);
        }
        let cells = visible_cells(line, &line_colors[row], vp.h_scroll, vp.width);
        let runs = compress_cells(&cells);
        rows.push(runs);
        i = i + 1;
    }
    rows
}


/// The blank cell the paint surface pads with.
pub open spec fn blank_cell_spec() -> Colors {
    cell_spec(Color::White, ' ')
}

/// The mathematical value of the paint surface: its cell grid, the pen
/// position and the pen color.
#[verifier::ext_equal]
pub ghost struct BufView {
    pub grid: Seq<Seq<Colors>>,
    pub x: int,
    pub y: int,
    pub color: Color,
}

/// The grid a vector of rows denotes.
pub open spec fn grid_view(buf: Seq<Vec<Colors>>) -> Seq<Seq<Colors>> {
    buf.map_values(|r: Vec<Colors>| r@)
}

/// The grid extended with empty rows until it has at least `n`.
pub open spec fn pad_rows_spec(grid: Seq<Seq<Colors>>, n: int) -> Seq<Seq<Colors>> {
    if grid.len() >= n {
        grid
    } else {
        grid + Seq::new((n - grid.len()) as nat, |i: int| Seq::<Colors>::empty())
    }
}

/// A row extended with blank cells until it has at least `n`.
pub open spec fn pad_cells_spec(row: Seq<Colors>, n: int) -> Seq<Colors> {
    if row.len() >= n {
        row
    } else {
        row + Seq::new((n - row.len()) as nat, |i: int| blank_cell_spec())
    }
}

/// Whether writing `c` keeps the pen inside the 16-bit coordinate range.
pub open spec fn put_ok(v: BufView, c: char) -> bool {
    if c == '\n' {
        v.y < 0xffff
    } else {
        v.x < 0xffff
    }
}

/// Writing one character: the grid grows to reach the pen, the pen's row
/// is padded with blanks up to the pen's column; a line break moves the
/// pen to the start of the next row, any other character lands at the pen
/// in the pen's color and advances it.
pub open spec fn put_char_spec(v: BufView, c: char) -> BufView {
    let g = pad_rows_spec(v.grid, v.y + 1);
    let row = pad_cells_spec(g[v.y], v.x + 1);
    if c == '\n' {
        BufView { grid: g.update(v.y, row), x: 0, y: v.y + 1, ..v }
    } else {
        BufView { grid: g.update(v.y, row.update(v.x, cell_spec(v.color, c))), x: v.x + 1, ..v }
    }
}

/// Writing a string: one character after the other.
pub open spec fn put_str_spec(v: BufView, s: Seq<char>) -> BufView
    decreases s.len(),
{
    if s.len() == 0 {
        v
    } else {
        put_str_spec(put_char_spec(v, s.first()), s.drop_first())
    }
}

/// Whether every character of `s` keeps the pen in range.
pub open spec fn puts_ok(v: BufView, s: Seq<char>) -> bool
    decreases s.len(),
{
    if s.len() == 0 {
        true
    } else {
        put_ok(v, s.first()) && puts_ok(put_char_spec(v, s.first()), s.drop_first())
    }
}

/// Writing a string and then one more character is writing the string
/// extended by that character.
pub proof fn lemma_put_str_push(v: BufView, a: Seq<char>, c: char)
    ensures
        put_str_spec(v, a.push(c)) == put_char_spec(put_str_spec(v, a), c),
        puts_ok(v, a.push(c)) == (puts_ok(v, a) && put_ok(put_str_spec(v, a), c)),
    decreases a.len(),
{
    let b = a.push(c);
    if a.len() == 0 {
        assert(b.first() == c);
        assert(b.drop_first() =~= Seq::<char>::empty());
        assert(put_str_spec(v, b) == put_str_spec(put_char_spec(v, c), b.drop_first()));
        assert(put_str_spec(put_char_spec(v, c), b.drop_first()) == put_char_spec(v, c));
        assert(put_str_spec(v, a) == v);
        assert(puts_ok(v, b) == (put_ok(v, c) && puts_ok(put_char_spec(v, c), b.drop_first())));
        assert(puts_ok(put_char_spec(v, c), b.drop_first()));
        assert(puts_ok(v, a));
    } else {
        assert(b.first() == a.first());
        assert(b.drop_first() =~= a.drop_first().push(c));
        let w = put_char_spec(v, a.first());
        lemma_put_str_push(w, a.drop_first(), c);
        assert(put_str_spec(v, b) == put_str_spec(w, a.drop_first().push(c)));
        assert(put_str_spec(v, a) == put_str_spec(w, a.drop_first()));
        assert(puts_ok(v, b) == (put_ok(v, a.first()) && puts_ok(w, a.drop_first().push(c))));
        assert(puts_ok(v, a) == (put_ok(v, a.first()) && puts_ok(w, a.drop_first())));
    }
}

/// The newline the paint surface appends after each row joins the last
/// run, whatever its color.
pub open spec fn add_line_break_spec(runs: Seq<RunView>) -> Seq<RunView> {
    runs.update(
        runs.len() - 1,
        RunView { color: runs.last().color, text: runs.last().text.push('\n') },
    )
}

/// The runs of a whole grid: each row's cells compressed in order, a
/// newline joined to the last run after every row.
pub open spec fn renderable_spec(grid: Seq<Seq<Colors>>) -> Seq<RunView>
    decreases grid.len(),
{
    if grid.len() == 0 {
        Seq::<RunView>::empty()
    } else {
        add_line_break_spec(add_cells_spec(renderable_spec(grid.drop_last()), grid.last()))
    }
}

/// The paint surface: a grid of cells written through a moving pen.
pub struct Buffer {
    pub buf: Vec<Vec<Colors>>,
    pub pos: Pos,
    pub color: Color,
}

impl View for Buffer {
    type V = BufView;

    open spec fn view(&self) -> BufView {
        BufView {
            grid: grid_view(self.buf@),
            x: self.pos.x as int,
            y: self.pos.y as int,
            color: self.color,
        }
    }
}

impl Buffer {
    /// A fresh surface: one empty row, pen at the origin, white pen.
    pub fn new() -> (b: Self)
        ensures
            b@.grid =~~= seq![Seq::<Colors>::empty()],
            b@.x == 0,
            b@.y == 0,
            b@.color == Color::White,
    {
        let mut buf: Vec<Vec<Colors>> = Vec::new();
        buf.push(Vec::new());
        Buffer { buf, pos: Pos::from(0, 0), color: Color::White }
    }

    /// Moves the pen.
    pub fn set_cursor(&mut self, x: u16, y: u16)
        ensures
            final(self)@ == (BufView { x: x as int, y: y as int, ..old(self)@ }),
    {
        self.pos.set(Pos::from(x, y));
    }

    /// Changes the pen color; cells already written keep theirs.
    pub fn set_color(&mut self, color: Color)
        ensures
            final(self)@ == (BufView { color, ..old(self)@ }),
    {
        self.color = color;
    }

    /// Writes one character at the pen, as `put_char_spec` says.
    pub fn char_at_pos(&mut self, c: char)
        requires
            put_ok(old(self)@, c),
        ensures
            final(self)@ =~~= put_char_spec(old(self)@, c),
    {
        let y = self.pos.y as usize;
        let x = self.pos.x as usize;
        let ghost grid0 = old(self)@.grid;
        while y >= self.buf.len()
            invariant
                self.pos == old(self).pos,
                self.color == old(self).color,
                grid0 == old(self)@.grid,
                self.buf@.len() >= grid0.len(),
                self.buf@.len() > grid0.len() ==> self.buf@.len() <= y + 1,
                forall|i: int|
                    0 <= i < grid0.len() ==> #[trigger] self.buf@[i]@ == grid0[i],
                forall|i: int|
                    grid0.len() <= i < self.buf@.len() ==> #[trigger] self.buf@[i]@ == Seq::<
                        Colors,
                    >::empty(),
            decreases y + 1 - self.buf.len(),
        {
            self.buf.push(Vec::new());
        }
        let ghost g = pad_rows_spec(grid0, y + 1);
        proof {
            assert(grid_view(self.buf@) =~~= g);
        }
        let mut row = self.buf.remove(y);
        let ghost row0 = g[y as int];
        proof {
            assert(row@ == row0);
        }
        while x >= row.len()
            invariant
                row@.len() >= row0.len(),
                row@.len() > row0.len() ==> row@.len() <= x + 1,
                forall|i: int| 0 <= i < row0.len() ==> #[trigger] row@[i] == row0[i],
                forall|i: int|
                    row0.len() <= i < row@.len() ==> #[trigger] row@[i] == blank_cell_spec(),
            decreases x + 1 - row.len(),
        {
            row.push(Colors::of(Color::White, ' '));
        }
        proof {
            assert(row@ =~= pad_cells_spec(row0, x + 1));
        }
        if c == '\n' {
            self.buf.insert(y, row);
            self.pos.x = 0;
            self.pos.y = self.pos.y + 1;
            proof {
                assert(grid_view(self.buf@) =~~= g.update(y as int, pad_cells_spec(row0, x + 1)));
                assert(final(self)@ =~~= put_char_spec(old(self)@, c));
            }
        } else {
            let cell = Colors::of(self.color, c);
            let _ = row.remove(x);
            row.insert(x, cell);
            proof {
                assert(row@ =~~= pad_cells_spec(row0, x + 1).update(x as int, cell));
            }
            self.buf.insert(y, row);
            self.pos.x = self.pos.x + 1;
            proof {
                assert(grid_view(self.buf@) =~~= g.update(
                    y as int,
                    pad_cells_spec(row0, x + 1).update(x as int, cell_spec(old(self)@.color, c)),
                ));
                assert(final(self)@ =~~= put_char_spec(old(self)@, c));
            }
        }
    }

    /// Writes a whole string at the pen, character by character.
    pub fn print(&mut self, s: &str)
        requires
            puts_ok(old(self)@, s@),
        ensures
            final(self)@ =~~= put_str_spec(old(self)@, s@),
    {
        let ghost v0 = old(self)@;
        let n = s.unicode_len();
        let mut i: usize = 0;
        proof {
            assert(s@.skip(0) =~= s@);
        }
        while i < n
            invariant
                i <= n,
                n == s@.len(),
                puts_ok(self@, s@.skip(i as int)),
                put_str_spec(self@, s@.skip(i as int)) == put_str_spec(v0, s@),
            decreases n - i,
        {
            proof {
                assert(s@.skip(i as int).first() == s@[i as int]);
                assert(s@.skip(i as int).drop_first() =~= s@.skip(i + 1));
            }
            let c = s.get_char(i);
            self.char_at_pos(c);
            i = i + 1;
        }
        proof {
            assert(s@.skip(n as int) =~= Seq::<char>::empty());
        }
    }

    /// Writes a string followed by a line break.
    pub fn println(&mut self, s: &str)
        requires
            puts_ok(old(self)@, s@.push('\n')),
        ensures
            final(self)@ =~~= put_str_spec(old(self)@, s@.push('\n')),
    {
        proof {
            lemma_put_str_push(old(self)@, s@, '\n');
        }
        self.print(s);
        self.char_at_pos('\n');
    }

    /// Compresses the whole grid into runs, a newline joined after every
    /// row. The first row must hold a cell whenever the grid holds a row:
    /// the first newline needs a run to join.
    pub fn into_renderable(&self) -> (r: Vec<Renderable_Colors>)
        requires
            self@.grid.len() > 0 ==> self@.grid[0].len() > 0,
        ensures
            runs_view(r@) == renderable_spec(self@.grid),
    {
        let mut r: Vec<Renderable_Colors> = Vec::new();
        let n = self.buf.len();
        let mut row: usize = 0;
        proof {
            assert(self@.grid.take(0) =~= Seq::<Seq<Colors>>::empty());
            assert(runs_view(r@) =~= Seq::<RunView>::empty());
        }
        while row < n
            invariant
                row <= n,
                n == self@.grid.len(),
                self@.grid.len() > 0 ==> self@.grid[0].len() > 0,
                runs_view(r@) == renderable_spec(self@.grid.take(row as int)),
                row > 0 ==> r@.len() >= 1,
            decreases n - row,
        {
            let line = &self.buf[row];
            proof {
                assert(line@ == self@.grid[row as int]);
            }
            push_cells(&mut r, line);
            let mut last = r.pop().unwrap();
            push_char(&mut last.text, '\n');
            r.push(last);
            proof {
                let prev = renderable_spec(self@.grid.take(row as int));
                assert(runs_view(r@) =~~= add_line_break_spec(
                    add_cells_spec(prev, self@.grid[row as int]),
                ));
                assert(self@.grid.take(row + 1).drop_last() =~= self@.grid.take(row as int));
                assert(self@.grid.take(row + 1).last() == self@.grid[row as int]);
            }
            row = row + 1;
        }
        proof {
            assert(self@.grid.take(n as int) =~= self@.grid);
        }
        r
    }
}



/// The characters a sequence of runs carries, in order.
pub open spec fn runs_chars(runs: Seq<RunView>) -> Seq<char>
    decreases runs.len(),
{
    if runs.len() == 0 {
        Seq::<char>::empty()
    } else {
        runs_chars(runs.drop_last()) + runs.last().text
    }
}

/// The characters of a row of cells, in order.
pub open spec fn cell_chars(cells: Seq<Colors>) -> Seq<char> {
    cells.map_values(|c: Colors| c.text)
}

/// What makes runs runs: none is empty, and no two adjacent ones share a
/// color — each run is maximal.
pub open spec fn runs_wf(runs: Seq<RunView>) -> bool {
    &&& forall|i: int| 0 <= i < runs.len() ==> (#[trigger] runs[i]).text.len() > 0
    &&& forall|i: int| 0 <= i && i + 1 < runs.len() ==> (#[trigger] runs[i]).color != (
    #[trigger] runs[i + 1]).color
}

/// One compression step keeps the runs well formed and appends exactly
/// the new cell's character.
#[verifier::rlimit(60)]
pub proof fn lemma_add_cell_runs(runs: Seq<RunView>, cell: Colors)
    requires
        runs_wf(runs),
    ensures
        runs_wf(add_cell_spec(runs, cell)),
        add_cell_spec(runs, cell).len() >= 1,
        add_cell_spec(runs, cell).last().color == cell.color,
        runs_chars(add_cell_spec(runs, cell)) == runs_chars(runs).push(cell.text),
{
    let u = add_cell_spec(runs, cell);
    if runs.len() > 0 && runs.last().color == cell.color {
        assert(u.drop_last() =~= runs.drop_last());
        assert(runs_chars(u) == runs_chars(runs.drop_last()) + runs.last().text.push(cell.text));
        assert(runs_chars(runs.drop_last()) + runs.last().text.push(cell.text) =~= (
        runs_chars(runs.drop_last()) + runs.last().text).push(cell.text));
        assert forall|i: int| 0 <= i < u.len() implies #[trigger] u[i].text.len() > 0 by {
            assert(runs[i].text.len() > 0);
        }
        assert forall|i: int| 0 <= i && i + 1 < u.len() implies #[trigger] u[i].color != u[i
            + 1].color by {
            let n = runs.len();
            assert(runs[i].color != runs[i + 1].color);
            assert(u[i] == runs[i]);
            if i + 1 == n - 1 {
                assert(u[i + 1].color == cell.color);
                assert(runs[i + 1].color == runs.last().color);
            } else {
                assert(u[i + 1] == runs[i + 1]);
            }
        }
    } else {
        assert(u.drop_last() =~= runs);
        assert(runs_chars(u) == runs_chars(runs) + seq![cell.text]);
        assert(runs_chars(runs) + seq![cell.text] =~= runs_chars(runs).push(cell.text));
        assert forall|i: int| 0 <= i < u.len() implies #[trigger] u[i].text.len() > 0 by {
            if i < u.len() - 1 {
                assert(runs[i].text.len() > 0);
            }
        }
        assert forall|i: int| 0 <= i && i + 1 < u.len() implies #[trigger] u[i].color != u[i
            + 1].color by {
            let n = runs.len();
            assert(u[i] == runs[i]);
            if i + 1 < n {
                assert(u[i + 1] == runs[i + 1]);
                assert(runs[i].color != runs[i + 1].color);
            } else {
                assert(runs[i].color == runs.last().color);
                assert(u[i + 1].color == cell.color);
            }
        }
    }
}

/// Compressing a row of cells keeps the runs well formed and appends
/// exactly the row's characters.
pub proof fn lemma_add_cells_runs(runs: Seq<RunView>, cells: Seq<Colors>)
    requires
        runs_wf(runs),
    ensures
        runs_wf(add_cells_spec(runs, cells)),
        runs_chars(add_cells_spec(runs, cells)) == runs_chars(runs) + cell_chars(cells),
    decreases cells.len(),
{
    if cells.len() == 0 {
        assert(runs_chars(runs) + cell_chars(cells) =~= runs_chars(runs));
    } else {
        let c = cells.first();
        lemma_add_cell_runs(runs, c);
        lemma_add_cells_runs(add_cell_spec(runs, c), cells.drop_first());
        assert(runs_chars(runs).push(c.text) + cell_chars(cells.drop_first()) =~= runs_chars(
            runs,
        ) + cell_chars(cells));
    }
}

/// Run-length compression is lossless and maximal: the runs of a row
/// carry exactly the row's characters, none of them is empty, and no two
/// adjacent runs share a color.
pub proof fn lemma_runs_of_cells(cells: Seq<Colors>)
    ensures
        runs_wf(runs_of_cells_spec(cells)),
        runs_chars(runs_of_cells_spec(cells)) == cell_chars(cells),
{
    lemma_add_cells_runs(Seq::<RunView>::empty(), cells);
    assert(runs_chars(Seq::<RunView>::empty()) + cell_chars(cells) =~= cell_chars(cells));
}

/// The characters of one buffer line inside the viewport's window.
pub open spec fn window_chars(line: Seq<char>, h: int, w: int) -> Seq<char> {
    if h >= line.len() {
        Seq::<char>::empty()
    } else if h + w <= line.len() {
        line.subrange(h, h + w)
    } else {
        line.subrange(h, line.len() as int)
    }
}

/// One redraw: re-clamps the viewport around the cursor, asks the
/// tokenizer to color the buffer, validates the answer and paints the
/// visible rectangle as runs, one vector per visible row.
pub fn render_editor<T: Tokenizer>(ed: &Editor, vp: &mut Viewport, tok: &T) -> (rows: Vec<
    Vec<Renderable_Colors>,
>)
    requires
        ed_wf(ed@),
        old(vp).width >= 1,
        old(vp).height >= 1,
    ensures
        final(vp).width == old(vp).width,
        final(vp).height == old(vp).height,
        final(vp).v_scroll == vscroll_spec(
            old(vp).v_scroll as int,
            ed@.row,
            ed@.lines.len() as int,
            old(vp).height as int,
        ),
        final(vp).h_scroll == hscroll_spec(
            old(vp).h_scroll as int,
            ed@.col,
            old(vp).width as int,
        ),
        final(vp).v_scroll <= max_v_scroll(ed@.lines.len() as int, old(vp).height as int),
        final(vp).v_scroll <= ed@.row < final(vp).v_scroll + final(vp).height,
        final(vp).h_scroll <= ed@.col < final(vp).h_scroll + final(vp).width,
        rows@.len() == visible_row_count_spec(
            ed@.lines.len() as int,
            final(vp).v_scroll as int,
            final(vp).height as int,
        ),
        forall|i: int|
            0 <= i < rows@.len() ==> runs_wf(runs_view(#[trigger] rows@[i]@)) && runs_chars(
                runs_view(rows@[i]@),
            ) == window_chars(
                ed@.lines[final(vp).v_scroll + i],
                final(vp).h_scroll as int,
                final(vp).width as int,
            ),
{
    let line_count = ed.buffer.line_count();
    vp.scroll_to_cursor(ed.cursor.row, ed.cursor.col, line_count);
    let colors = highlight_colors(tok, &ed.buffer);
    let line_colors = unflatten_colors(&ed.buffer, &colors);
    let rows = render_region(&ed.buffer, vp, &line_colors);
    proof {
        let h = vp.h_scroll as int;
        let w = vp.width as int;
        assert forall|i: int| 0 <= i < rows@.len() implies runs_wf(
            runs_view(#[trigger] rows@[i]@),
        ) && runs_chars(runs_view(rows@[i]@)) == window_chars(
            ed@.lines[vp.v_scroll + i],
            h,
            w,
        ) by {
            let line = ed@.lines[vp.v_scroll + i];
            let cells = visible_cells_spec(line, line_colors@[vp.v_scroll + i]@, h, w);
            lemma_runs_of_cells(cells);
            assert(cell_chars(cells) =~= window_chars(line, h, w));
        }
    }
    rows
}

} // verus!
