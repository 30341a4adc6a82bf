//! The highlight adapter. The external tokenizer capability is asked for
//! one color per character of the flattened buffer (all lines joined with
//! a single separator character); the adapter validates the answer and,
//! when the count does not match, discards it and paints everything in
//! the capability's default color. Nothing is assumed about what the
//! capability returns.

use vstd::prelude::*;
use crate::terminal::Color;
use crate::text::{TextBuffer, lines_wf};

verus! {

/// All lines joined with a single separator character between them.
pub open spec fn flat_spec(lines: Seq<Seq<char>>) -> Seq<char>
    decreases lines.len(),
{
    if lines.len() == 0 {
        Seq::<char>::empty()
    } else if lines.len() == 1 {
        lines[0]
    } else {
        flat_spec(lines.drop_last()) + seq!['\n'] + lines.last()
    }
}

/// Index in the flattened text where line `row` starts.
pub open spec fn offset_spec(lines: Seq<Seq<char>>, row: int) -> int
    decreases row,
{
    if row <= 0 {
        0
    } else {
        offset_spec(lines, row - 1) + lines[row - 1].len() + 1
    }
}

/// Line offsets never go negative.
pub proof fn lemma_offset_nonneg(lines: Seq<Seq<char>>, row: int)
    ensures
        offset_spec(lines, row) >= 0,
    decreases row,
{
    if row > 0 {
        lemma_offset_nonneg(lines, row - 1);
    }
}

/// A line's offset depends only on the lines above it.
pub proof fn lemma_offset_prefix(l1: Seq<Seq<char>>, l2: Seq<Seq<char>>, row: int)
    requires
        forall|j: int| 0 <= j < row ==> l1[j] == l2[j],
    ensures
        offset_spec(l1, row) == offset_spec(l2, row),
    decreases row,
{
    if row > 0 {
        lemma_offset_prefix(l1, l2, row - 1);
    }
}

/// The flattened text ends exactly where the last line ends.
pub proof fn lemma_flat_len(lines: Seq<Seq<char>>)
    requires
        lines.len() >= 1,
    ensures
        flat_spec(lines).len() == offset_spec(lines, lines.len() - 1) + lines.last().len(),
    decreases lines.len(),
{
    if lines.len() > 1 {
        let d = lines.drop_last();
        lemma_flat_len(d);
        lemma_offset_prefix(lines, d, lines.len() - 2);
    }
}

/// Every line lies inside the flattened text.
pub proof fn lemma_offset_bound(lines: Seq<Seq<char>>, row: int)
    requires
        0 <= row < lines.len(),
    ensures
        offset_spec(lines, row) >= 0,
        offset_spec(lines, row) + lines[row].len() <= flat_spec(lines).len(),
    decreases lines.len(),
{
    lemma_offset_nonneg(lines, row);
    if row == lines.len() - 1 {
        lemma_flat_len(lines);
    } else {
        let d = lines.drop_last();
        lemma_offset_prefix(lines, d, row);
        lemma_offset_bound(d, row);
    }
}

/// The flattened text holds each line's characters at that line's offset.
pub proof fn lemma_flat_char(lines: Seq<Seq<char>>, row: int, c: int)
    requires
        0 <= row < lines.len(),
        0 <= c < lines[row].len(),
    ensures
        flat_spec(lines)[offset_spec(lines, row) + c] == lines[row][c],
    decreases lines.len(),
{
    lemma_offset_nonneg(lines, row);
    if lines.len() > 1 {
        let d = lines.drop_last();
        if row == lines.len() - 1 {
            lemma_flat_len(d);
            lemma_offset_prefix(lines, d, row - 1);
        } else {
            lemma_offset_prefix(lines, d, row);
            lemma_offset_bound(d, row);
            lemma_flat_char(d, row, c);
        }
    }
}

/// Flattens the buffer: all lines joined with the separator character.
pub fn flatten(tb: &TextBuffer) -> (flat: Vec<char>)
    requires
        lines_wf(tb@),
    ensures
        flat@ =~= flat_spec(tb@),
{
    let mut flat: Vec<char> = Vec::new();
    let n = tb.line_count();
    let mut row: usize = 0;
    proof {
        assert(flat_spec(tb@.take(0)) =~= Seq::<char>::empty());
    }
    while row < n
        invariant
            row <= n,
            n == tb@.len(),
            flat@ =~= flat_spec(tb@.take(row as int)),
        decreases n - row,
    {
        if row > 0 {
            flat.push('\n');
        }
        let line = tb.line(row);
        let len = line.len();
        let ghost base = flat@;
        let mut i: usize = 0;
        proof {
            assert(line.deep_view() =~= line@);
            assert(base + tb@[row as int].take(0) =~= base);
        }
        while i < len
            invariant
                i <= len,
                row < n,
                n == tb@.len(),
                len == tb@[row as int].len(),
                line.deep_view() == tb@[row as int],
                line@ =~= tb@[row as int],
                flat@ =~= base + tb@[row as int].take(i as int),
            decreases len - i,
        {
            flat.push(line[i]);
            proof {
                assert(base + tb@[row as int].take(i + 1) =~= (base + tb@[row as int].take(
                    i as int,
                )).push(tb@[row as int][i as int]));
            }
            i = i + 1;
        }
        proof {
            assert(tb@[row as int].take(len as int) =~= tb@[row as int]);
            assert(tb@.take(row + 1).drop_last() =~= tb@.take(row as int));
            assert(tb@.take(row + 1).last() == tb@[row as int]);
            if row == 0 {
                assert(flat@ =~= flat_spec(tb@.take(1)));
            }
        }
        row = row + 1;
    }
    proof {
        assert(tb@.take(n as int) =~= tb@);
    }
    flat
}

/// Validates the tokenizer's answer: with exactly one token per flattened
/// character the tokens are used as they are; with any other count the
/// whole answer is discarded and every position gets the default color.
pub fn resolve_tokens(tokens: Vec<Color>, flat_len: usize, default: Color) -> (r: Vec<Color>)
    ensures
        r@.len() == flat_len,
        tokens@.len() == flat_len ==> r@ == tokens@,
        tokens@.len() != flat_len ==> forall|i: int|
            0 <= i < flat_len ==> r@[i] == default,
{
    if tokens.len() == flat_len {
        tokens
    } else {
        let mut r: Vec<Color> = Vec::new();
        let mut i: usize = 0;
        while i < flat_len
            invariant
                i <= flat_len,
                r@.len() == i,
                forall|j: int| 0 <= j < i ==> r@[j] == default,
            decreases flat_len - i,
        {
            r.push(default);
            i = i + 1;
        }
        r
    }
}

/// The external syntax-coloring capability: a color for every character
/// of the flattened buffer, and a default color. Either answer may be
/// anything; the adapter validates before use.
pub trait Tokenizer {
    /// One color per character of `flat`, in document order — or any
    /// other answer, which the adapter will discard.
    fn tokenize(&self, flat: &Vec<char>) -> Vec<Color>;

    /// The color used wherever no valid token applies.
    fn get_default(&self) -> Color;
}

/// The built-in capability used when no scripting runtime is present:
/// no tokens (so the adapter falls back) and a fixed default color.
pub struct NoOpTokenizer;

impl Tokenizer for NoOpTokenizer {
    fn tokenize(&self, flat: &Vec<char>) -> Vec<Color> {
        Vec::new()
    }

    fn get_default(&self) -> Color {
        Color::White
    }
}

/// Asks the capability to color the flattened buffer and validates the
/// answer: the result always has one color per flattened character.
pub fn highlight_colors<T: Tokenizer>(tok: &T, tb: &TextBuffer) -> (r: Vec<Color>)
    requires
        lines_wf(tb@),
    ensures
        r@.len() == flat_spec(tb@).len(),
{
    let flat = flatten(tb);
    let tokens = tok.tokenize(&flat);
    let default = tok.get_default();
    let len = flat.len();
    resolve_tokens(tokens, len, default)
}

/// Distributes flattened colors back onto the lines: line `row` of the
/// result holds the colors of line `row` of the buffer.
pub fn unflatten_colors(tb: &TextBuffer, colors: &Vec<Color>) -> (r: Vec<Vec<Color>>)
    requires
        lines_wf(tb@),
        colors@.len() == flat_spec(tb@).len(),
    ensures
        r@.len() == tb@.len(),
        forall|row: int| 0 <= row < tb@.len() ==> #[trigger] r@[row]@.len() == tb@[row].len(),
        forall|row: int, c: int|
            0 <= row < tb@.len() && 0 <= c < tb@[row].len() ==> #[trigger] r@[row]@[c]
                == colors@[offset_spec(tb@, row) + c],
        forall|row: int, c: int|
            0 <= row < tb@.len() && 0 <= c < tb@[row].len() ==> flat_spec(tb@)[
                offset_spec(tb@, row) + c
            ] == #[trigger] tb@[row][c],
{
    proof {
        assert forall|row: int, c: int|
            0 <= row < tb@.len() && 0 <= c < tb@[row].len() implies flat_spec(tb@)[
            offset_spec(tb@, row) + c
        ] == #[trigger] tb@[row][c] by {
            lemma_flat_char(tb@, row, c);
        }
    }
    let mut r: Vec<Vec<Color>> = Vec::new();
    let n = tb.line_count();
    let total = colors.len();
    let mut off: usize = 0;
    let mut row: usize = 0;
    while row < n
        invariant
            row <= n,
            n == tb@.len(),
            colors@.len() == flat_spec(tb@).len(),
            total == colors@.len(),
            r@.len() == row,
            row < n ==> off == offset_spec(tb@, row as int),
            forall|j: int| 0 <= j < row ==> #[trigger] r@[j]@.len() == tb@[j].len(),
            forall|j: int, c: int|
                0 <= j < row && 0 <= c < tb@[j].len() ==> #[trigger] r@[j]@[c] == colors@[
                    offset_spec(tb@, j) + c
                ],
        decreases n - row,
    {
        proof {
            lemma_offset_bound(tb@, row as int);
        }
        let line = tb.line(row);
        let len = line.len();
        let mut lc: Vec<Color> = Vec::new();
        let mut c: usize = 0;
        while c < len
            invariant
                c <= len,
                row < n,
                n == tb@.len(),
                len == tb@[row as int].len(),
                colors@.len() == flat_spec(tb@).len(),
                total == colors@.len(),
                off == offset_spec(tb@, row as int),
                off + len <= total,
                lc@.len() == c,
                forall|k: int| 0 <= k < c ==> #[trigger] lc@[k] == colors@[off + k],
            decreases len - c,
        {
            lc.push(colors[off + c]);
            c = c + 1;
        }
        r.push(lc);
        proof {
            if row + 1 < n {
                lemma_offset_bound(tb@, row + 1);
            }
        }
        if row + 1 < n {
            off = off + len + 1;
        }
        row = row + 1;
    }
    r
}

} // verus!
