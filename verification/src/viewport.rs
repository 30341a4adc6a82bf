//! The viewport controller. After every handled key the view is
//! re-clamped around the cursor. Horizontal policy: edge-clamped — scroll
//! the minimum needed to keep the cursor column visible. Vertical policy:
//! centering with hysteresis — a document that fits is pinned to the top;
//! otherwise a cursor already at the midpoint row leaves the scroll
//! alone, a cursor at or past the midpoint with the scroll at its maximum
//! stays pinned at the bottom, and in every other case the scroll moves
//! by exactly the delta that brings the cursor back to the midpoint,
//! clamped to the document.

use vstd::prelude::*;

verus! {

/// The largest legal vertical scroll offset for a document of
/// `line_count` lines seen through `height` rows.
pub open spec fn max_v_scroll(line_count: int, height: int) -> int {
    if line_count > height {
        line_count - height
    } else {
        0
    }
}

/// The vertical scroll offset after re-clamping around cursor row `row`.
pub open spec fn vscroll_spec(scroll: int, row: int, line_count: int, height: int) -> int {
    if line_count <= height {
        0
    } else {
        let max_s = line_count - height;
        let base = if scroll <= max_s {
            scroll
        } else {
            max_s
        };
        let mid = height / 2;
        if row - base == mid {
            base
        } else if row - base >= mid && base == max_s {
            base
        } else {
            let target = row - mid;
            if target < 0 {
                0
            } else if target > max_s {
                max_s
            } else {
                target
            }
        }
    }
}

/// The horizontal scroll offset after re-clamping around cursor column
/// `col`: snap the left edge to the cursor when it is left of the window,
/// advance just enough when it is right of it.
pub open spec fn hscroll_spec(scroll: int, col: int, width: int) -> int {
    if col < scroll {
        col
    } else if col - scroll >= width {
        col - (width - 1)
    } else {
        scroll
    }
}

/// The rectangular window of buffer coordinates currently on screen.
#[derive(Clone, Copy, PartialEq, Eq, Structural, Debug)]
pub struct Viewport {
    pub v_scroll: usize,
    pub h_scroll: usize,
    pub width: usize,
    pub height: usize,
}

impl Viewport {
    /// A viewport of the given dimensions, scrolled to the origin.
    pub fn new(width: usize, height: usize) -> (vp: Self)
        requires
            width >= 1,
            height >= 1,
        ensures
            vp == (Viewport { v_scroll: 0, h_scroll: 0, width, height }),
    {
        Viewport { v_scroll: 0, h_scroll: 0, width, height }
    }

    /// Re-clamps both scroll offsets around the cursor. Afterwards the
    /// vertical offset lies in `[0, max(0, line_count - height)]` and the
    /// cursor's screen row in `[0, height)`; the column likewise stays
    /// inside the window.
    pub fn scroll_to_cursor(&mut self, row: usize, col: usize, line_count: usize)
        requires
            old(self).width >= 1,
            old(self).height >= 1,
            row < line_count,
        ensures
            final(self).v_scroll == vscroll_spec(
                old(self).v_scroll as int,
                row as int,
                line_count as int,
                old(self).height as int,
            ),
            final(self).h_scroll == hscroll_spec(
                old(self).h_scroll as int,
                col as int,
                old(self).width as int,
            ),
            final(self).width == old(self).width,
            final(self).height == old(self).height,
            final(self).v_scroll <= max_v_scroll(line_count as int, old(self).height as int),
            final(self).v_scroll <= row < final(self).v_scroll + final(self).height,
            final(self).h_scroll <= col < final(self).h_scroll + final(self).width,
    {
        if line_count <= self.height {
            self.v_scroll = 0;
        } else {
            let max_s = line_count - self.height;
            let base = if self.v_scroll <= max_s {
                self.v_scroll
            } else {
                max_s
            };
            let mid = self.height / 2;
            if row == base + mid {
                self.v_scroll = base;
            } else if row > base + mid && base == max_s {
                self.v_scroll = base;
            } else {
                let target = if row > mid {
                    row - mid
                } else {
                    0
                };
                self.v_scroll = if target > max_s {
                    max_s
                } else {
                    target
                };
            }
        }
        if col < self.h_scroll {
            self.h_scroll = col;
        } else if col - self.h_scroll >= self.width {
            self.h_scroll = col - (self.width - 1);
        }
    }
}

} // verus!
