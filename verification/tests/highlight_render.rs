use editor_core::highlight::{
    flatten, highlight_colors, resolve_tokens, unflatten_colors, NoOpTokenizer, Tokenizer,
};
use editor_core::modes::Editor;
use editor_core::render::{compress_cells, render_editor, render_region, visible_cells, Colors};
use editor_core::terminal::Color;
use editor_core::text::TextBuffer;
use editor_core::viewport::Viewport;

fn buf_from(s: &str) -> TextBuffer {
    let chars: Vec<char> = s.chars().collect();
    TextBuffer::from_text(&chars)
}

/// A test capability that answers with a fixed list of colors.
struct FixedTokenizer {
    tokens: Vec<Color>,
    default: Color,
}

impl Tokenizer for FixedTokenizer {
    fn tokenize(&self, _flat: &Vec<char>) -> Vec<Color> {
        self.tokens.clone()
    }

    fn get_default(&self) -> Color {
        self.default
    }
}

#[test]
fn flatten_joins_lines_with_separator() {
    let tb = buf_from("ab\nc");
    let flat = flatten(&tb);
    assert_eq!(flat, vec!['a', 'b', '\n', 'c']);
}

#[test]
fn flatten_single_line_has_no_separator() {
    let tb = buf_from("abc");
    assert_eq!(flatten(&tb), vec!['a', 'b', 'c']);
}

#[test]
fn flatten_empty_buffer_is_empty() {
    let tb = TextBuffer::new();
    assert_eq!(flatten(&tb), Vec::<char>::new());
}

#[test]
fn resolve_tokens_keeps_matching_answer() {
    let tokens = vec![Color::Red, Color::Green, Color::Blue];
    let r = resolve_tokens(tokens, 3, Color::White);
    assert_eq!(r, vec![Color::Red, Color::Green, Color::Blue]);
}

#[test]
fn resolve_tokens_mismatch_falls_back_to_default() {
    // one token too few: every position gets the default color
    let tokens = vec![Color::Red, Color::Green];
    let r = resolve_tokens(tokens, 3, Color::Yellow);
    assert_eq!(r, vec![Color::Yellow, Color::Yellow, Color::Yellow]);
    // too many as well
    let tokens = vec![Color::Red, Color::Green, Color::Blue, Color::Red];
    let r = resolve_tokens(tokens, 3, Color::Yellow);
    assert_eq!(r, vec![Color::Yellow, Color::Yellow, Color::Yellow]);
}

#[test]
fn highlight_with_noop_tokenizer_defaults_everywhere() {
    let tb = buf_from("ab\nc");
    let colors = highlight_colors(&NoOpTokenizer, &tb);
    assert_eq!(colors, vec![Color::White; 4]);
}

#[test]
fn highlight_with_valid_tokens_uses_them() {
    let tb = buf_from("ab");
    let tok = FixedTokenizer { tokens: vec![Color::Red, Color::Blue], default: Color::White };
    let colors = highlight_colors(&tok, &tb);
    assert_eq!(colors, vec![Color::Red, Color::Blue]);
}

#[test]
fn unflatten_assigns_colors_per_line() {
    let tb = buf_from("ab\nc");
    let colors = vec![Color::Red, Color::Green, Color::White, Color::Blue];
    let per_line = unflatten_colors(&tb, &colors);
    assert_eq!(per_line.len(), 2);
    assert_eq!(per_line[0], vec![Color::Red, Color::Green]);
    assert_eq!(per_line[1], vec![Color::Blue]);
}

#[test]
fn compress_cells_coalesces_same_colors() {
    let cells = vec![
        Colors { color: Color::White, text: 'a' },
        Colors { color: Color::White, text: 'b' },
        Colors { color: Color::Yellow, text: 'c' },
        Colors { color: Color::White, text: 'd' },
    ];
    let runs = compress_cells(&cells);
    assert_eq!(runs.len(), 3);
    assert_eq!(runs[0].text, "ab");
    assert_eq!(runs[0].color, Color::White);
    assert_eq!(runs[1].text, "c");
    assert_eq!(runs[1].color, Color::Yellow);
    assert_eq!(runs[2].text, "d");
    assert_eq!(runs[2].color, Color::White);
}

#[test]
fn compress_cells_of_nothing_is_no_runs() {
    let runs = compress_cells(&Vec::new());
    assert_eq!(runs.len(), 0);
}

#[test]
fn visible_cells_window_selects_columns() {
    let line: Vec<char> = "abcdef".chars().collect();
    let cols = vec![Color::White; 6];
    // window of width 3 starting at column 2: "cde"
    let cells = visible_cells(&line, &cols, 2, 3);
    let text: Vec<char> = cells.iter().map(|c| c.text).collect();
    assert_eq!(text, vec!['c', 'd', 'e']);
    // window past the end of the line: nothing
    let cells = visible_cells(&line, &cols, 6, 3);
    assert_eq!(cells.len(), 0);
    // window reaching past the end is cut, not padded
    let cells = visible_cells(&line, &cols, 4, 10);
    let text: Vec<char> = cells.iter().map(|c| c.text).collect();
    assert_eq!(text, vec!['e', 'f']);
}

#[test]
fn render_region_paints_only_the_rectangle() {
    let tb = buf_from("ab\ncd\nef\ngh");
    let colors = vec![vec![Color::White; 2]; 4];
    let vp = Viewport { v_scroll: 1, h_scroll: 1, width: 4, height: 2 };
    let rows = render_region(&tb, &vp, &colors);
    assert_eq!(rows.len(), 2);
    assert_eq!(rows[0].len(), 1);
    assert_eq!(rows[0][0].text, "d");
    assert_eq!(rows[1][0].text, "f");
}

#[test]
fn render_region_stops_at_document_end() {
    let tb = buf_from("ab\ncd");
    let colors = vec![vec![Color::White; 2]; 2];
    let vp = Viewport { v_scroll: 1, h_scroll: 0, width: 10, height: 5 };
    let rows = render_region(&tb, &vp, &colors);
    assert_eq!(rows.len(), 1);
    assert_eq!(rows[0][0].text, "cd");
}

#[test]
fn mismatched_tokenizer_renders_all_cells_in_default_color() {
    // the tokenizer answers with the wrong count: every rendered cell
    // falls back to the capability's default color
    let tb = buf_from("abc\nde");
    let tok = FixedTokenizer { tokens: vec![Color::Red], default: Color::DarkCyan };
    let ed = Editor::with_buffer(tb);
    let mut vp = Viewport::new(10, 4);
    let rows = render_editor(&ed, &mut vp, &tok);
    assert_eq!(rows.len(), 2);
    for row in &rows {
        for run in row {
            assert_eq!(run.color, Color::DarkCyan);
        }
    }
    assert_eq!(rows[0][0].text, "abc");
    assert_eq!(rows[1][0].text, "de");
    // the editor itself is untouched by rendering
    assert_eq!(ed.buffer.line_count(), 2);
}

#[test]
fn matching_tokenizer_colors_reach_the_cells() {
    let tb = buf_from("ab");
    let tok = FixedTokenizer { tokens: vec![Color::Red, Color::Blue], default: Color::White };
    let ed = Editor::with_buffer(tb);
    let mut vp = Viewport::new(10, 4);
    let rows = render_editor(&ed, &mut vp, &tok);
    assert_eq!(rows.len(), 1);
    assert_eq!(rows[0].len(), 2);
    assert_eq!(rows[0][0].text, "a");
    assert_eq!(rows[0][0].color, Color::Red);
    assert_eq!(rows[0][1].text, "b");
    assert_eq!(rows[0][1].color, Color::Blue);
}

#[test]
fn render_editor_reclamps_the_viewport() {
    let chars: Vec<char> = "\n".repeat(99).chars().collect();
    let mut ed = Editor::with_buffer(TextBuffer::from_text(&chars));
    ed.cursor.row = 60;
    let mut vp = Viewport::new(80, 20);
    let rows = render_editor(&ed, &mut vp, &NoOpTokenizer);
    assert_eq!(vp.v_scroll, 50);
    assert_eq!(rows.len(), 20);
}
