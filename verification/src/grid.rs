//! The mathematical model of the cell grid, and what the draw operations do
//! to it.

use crate::gfx::{Color, Sprite};
use vstd::prelude::*;

verus! {

/// The glyph `graphic` in opaque white.
pub open spec fn white(graphic: char) -> Sprite {
    Sprite { graphic, color: Color { r: 255, g: 255, b: 255, a: 255 } }
}

/// The blank cell: a space in white.
pub open spec fn blank() -> Sprite {
    white(' ')
}

/// The character of a decimal digit.
pub open spec fn digit(d: nat) -> char {
    ('0' as u8 + d) as char
}

/// A number in decimal digits, without leading zeros.
pub open spec fn decimal(n: nat) -> Seq<char>
    decreases n,
{
    if n < 10 {
        seq![digit(n)]
    } else {
        decimal(n / 10).push(digit(n % 10))
    }
}

/// The six border glyphs of a box, by their place in the atlas.
pub open spec fn box_bottom_left() -> Sprite {
    white('\u{c0}')
}

pub open spec fn box_bottom_right() -> Sprite {
    white('\u{d9}')
}

pub open spec fn box_top_left() -> Sprite {
    white('\u{da}')
}

pub open spec fn box_top_right() -> Sprite {
    white('\u{bf}')
}

pub open spec fn box_horizontal() -> Sprite {
    white('\u{c4}')
}

pub open spec fn box_vertical() -> Sprite {
    white('\u{b3}')
}

/// What a box at (x, y) of `w` x `h` cells leaves in cell (cx, cy), if it
/// writes there at all. No side shares a cell with a corner or with another
/// side. Of the corners that fall on one cell, as they do in a box of width
/// or height 1, the one written last stands: top-right, else top-left, else
/// bottom-right.
pub open spec fn box_sprite(x: int, y: int, w: nat, h: nat, cx: int, cy: int) -> Option<Sprite> {
    let right = x + w - 1;
    let top = y + h - 1;
    if (cx == x || cx == right) && y < cy < top {
        Some(box_vertical())
    } else if (cy == y || cy == top) && x < cx < right {
        Some(box_horizontal())
    } else if cx == right && cy == top {
        Some(box_top_right())
    } else if cx == x && cy == top {
        Some(box_top_left())
    } else if cx == right && cy == y {
        Some(box_bottom_right())
    } else if cx == x && cy == y {
        Some(box_bottom_left())
    } else {
        None
    }
}

/// A grid of `cols` x `rows` cells in row-major order, with its dirty flag.
pub struct Grid {
    pub cols: nat,
    pub rows: nat,
    pub cells: Seq<Sprite>,
    pub dirty: bool,
}

impl Grid {
    /// The cell sequence covers the grid exactly.
    pub open spec fn wf(self) -> bool {
        self.cells.len() == self.cols * self.rows
    }

    pub open spec fn in_bounds(self, x: int, y: int) -> bool {
        0 <= x < self.cols && 0 <= y < self.rows
    }

    /// Position of cell (x, y) in the cell sequence.
    pub open spec fn index(self, x: int, y: int) -> int {
        y * self.cols + x
    }

    pub open spec fn cell(self, x: int, y: int) -> Sprite {
        self.cells[self.index(x, y)]
    }

    /// Writing `sprite` at (x, y): nothing happens off the grid or where the
    /// cell already holds `sprite`; otherwise the cell is replaced and the
    /// grid becomes dirty.
    pub open spec fn put(self, x: int, y: int, sprite: Sprite) -> Grid {
        if self.in_bounds(x, y) && self.cell(x, y) != sprite {
            Grid { cells: self.cells.update(self.index(x, y), sprite), dirty: true, ..self }
        } else {
            self
        }
    }

    /// Writing the characters of `text` in white from (x, y) to the right,
    /// one cell each, first character first.
    pub open spec fn put_string(self, x: int, y: int, text: Seq<char>) -> Grid
        decreases text.len(),
    {
        if text.len() == 0 {
            self
        } else {
            self.put_string(x, y, text.drop_last()).put(
                x + text.len() - 1,
                y,
                white(text.last()),
            )
        }
    }

    /// Writing the horizontal glyph in the rows `bottom` and `top`, in each
    /// column from `from` up to but not including `to`, bottom before top.
    pub open spec fn put_horizontal(self, from: int, to: int, bottom: int, top: int) -> Grid
        decreases to - from,
    {
        if to <= from {
            self
        } else {
            self.put_horizontal(from, to - 1, bottom, top).put(to - 1, bottom, box_horizontal()).put(
                to - 1,
                top,
                box_horizontal(),
            )
        }
    }

    /// Writing the vertical glyph in the columns `left` and `right`, in each
    /// row from `from` up to but not including `to`, left before right.
    pub open spec fn put_vertical(self, from: int, to: int, left: int, right: int) -> Grid
        decreases to - from,
    {
        if to <= from {
            self
        } else {
            self.put_vertical(from, to - 1, left, right).put(left, to - 1, box_vertical()).put(
                right,
                to - 1,
                box_vertical(),
            )
        }
    }

    /// Writing the border of a box whose bottom-left cell is (x, y): the
    /// four corners (bottom-left, bottom-right, top-left, top-right), then
    /// the two horizontal sides, then the two vertical sides.
    pub open spec fn put_box(self, x: int, y: int, w: nat, h: nat) -> Grid {
        let right = x + w - 1;
        let top = y + h - 1;
        self.put(x, y, box_bottom_left()).put(right, y, box_bottom_right()).put(
            x,
            top,
            box_top_left(),
        ).put(right, top, box_top_right()).put_horizontal(x + 1, right, y, top).put_vertical(
            y + 1,
            top,
            x,
            right,
        )
    }

    /// Every cell blank, and dirty whatever the grid held before.
    pub open spec fn cleared(self) -> Grid {
        Grid { cells: Seq::new(self.cols * self.rows, |i: int| blank()), dirty: true, ..self }
    }
}

/// A cell of a well-formed grid has its place inside the cell sequence, and
/// the place tells the cell: its row is the quotient by the number of
/// columns and its column the remainder.
pub proof fn lemma_index(g: Grid, x: int, y: int)
    requires
        g.wf(),
        g.in_bounds(x, y),
    ensures
        0 <= g.index(x, y) < g.cells.len(),
        g.index(x, y) / (g.cols as int) == y,
        g.index(x, y) % (g.cols as int) == x,
{
    let c = g.cols as int;
    assert(y * c + x < g.cols * g.rows) by (nonlinear_arith)
        requires
            0 <= x < c,
            0 <= y < g.rows,
            c == g.cols,
    ;
    assert(0 <= y * c + x) by (nonlinear_arith)
        requires
            0 <= x,
            0 <= y,
            0 <= c,
    ;
    vstd::arithmetic::div_mod::lemma_fundamental_div_mod_converse(y * c + x, c, y, x);
}

/// Some character of `text`, written from (x, y) to the right, lands on the
/// grid in a cell that holds something else.
pub open spec fn string_changes(g: Grid, x: int, y: int, text: Seq<char>) -> bool {
    exists|i: int|
        0 <= i < text.len() && g.in_bounds(x + i, y) && g.cell(x + i, y) != white(
            #[trigger] text[i],
        )
}

/// `after` can come from `before` by writes: it has the same size, it is
/// dirty if `before` was, and it is dirty if any cell differs.
pub open spec fn written(before: Grid, after: Grid) -> bool {
    &&& after.wf()
    &&& after.cols == before.cols
    &&& after.rows == before.rows
    &&& before.dirty ==> after.dirty
    &&& after.cells != before.cells ==> after.dirty
}

/// What one write does, cell by cell.
pub proof fn lemma_put(g: Grid, x: int, y: int, sprite: Sprite)
    requires
        g.wf(),
    ensures
        g.put(x, y, sprite).wf(),
        g.put(x, y, sprite).cols == g.cols,
        g.put(x, y, sprite).rows == g.rows,
        forall|cx: int, cy: int|
            g.in_bounds(cx, cy) ==> #[trigger] g.put(x, y, sprite).cell(cx, cy) == if cx == x && cy
                == y {
                sprite
            } else {
                g.cell(cx, cy)
            },
        g.put(x, y, sprite).dirty == (g.dirty || (g.in_bounds(x, y) && g.cell(x, y) != sprite)),
        written(g, g.put(x, y, sprite)),
{
    let r = g.put(x, y, sprite);
    assert forall|cx: int, cy: int| g.in_bounds(cx, cy) implies #[trigger] r.cell(cx, cy) == if cx
        == x && cy == y {
        sprite
    } else {
        g.cell(cx, cy)
    } by {
        lemma_index(g, cx, cy);
        if g.in_bounds(x, y) {
            lemma_index(g, x, y);
        }
    }
    if g.in_bounds(x, y) {
        lemma_index(g, x, y);
    }
}

/// Writing two strings one after the other is writing them joined.
pub proof fn lemma_put_string_concat(g: Grid, x: int, y: int, first: Seq<char>, second: Seq<char>)
    ensures
        g.put_string(x, y, first + second) == g.put_string(x, y, first).put_string(
            x + first.len(),
            y,
            second,
        ),
    decreases second.len(),
{
    if second.len() == 0 {
        assert(first + second == first);
    } else {
        assert((first + second).drop_last() == first + second.drop_last());
        lemma_put_string_concat(g, x, y, first, second.drop_last());
    }
}

/// What writing a string does, cell by cell: the cells of row `y` from
/// column `x` on hold the characters in white, every other cell is as it
/// was, and the grid is dirty if it was or if one of those cells changed.
pub proof fn lemma_put_string(g: Grid, x: int, y: int, text: Seq<char>)
    requires
        g.wf(),
    ensures
        written(g, g.put_string(x, y, text)),
        forall|cx: int, cy: int|
            g.in_bounds(cx, cy) ==> #[trigger] g.put_string(x, y, text).cell(cx, cy) == if cy == y
                && x <= cx < x + text.len() {
                white(text[cx - x])
            } else {
                g.cell(cx, cy)
            },
        g.put_string(x, y, text).dirty == (g.dirty || string_changes(g, x, y, text)),
    decreases text.len(),
{
    if text.len() > 0 {
        let n = text.len() as int;
        let head = text.drop_last();
        let before = g.put_string(x, y, head);
        let after = g.put_string(x, y, text);
        lemma_put_string(g, x, y, head);
        lemma_put(before, x + n - 1, y, white(text.last()));
        assert forall|cx: int, cy: int| g.in_bounds(cx, cy) implies #[trigger] after.cell(cx, cy)
            == if cy == y && x <= cx < x + text.len() {
            white(text[cx - x])
        } else {
            g.cell(cx, cy)
        } by {
            assert(before.in_bounds(cx, cy));
            assert(before.cell(cx, cy) == if cy == y && x <= cx < x + head.len() {
                white(head[cx - x])
            } else {
                g.cell(cx, cy)
            });
        }
        let last_changes = g.in_bounds(x + n - 1, y) && g.cell(x + n - 1, y) != white(
            text[n - 1],
        );
        if g.in_bounds(x + n - 1, y) {
            assert(before.in_bounds(x + n - 1, y));
            assert(before.cell(x + n - 1, y) == g.cell(x + n - 1, y));
        }
        assert(after.dirty == (before.dirty || last_changes));
        if string_changes(g, x, y, head) {
            let i = choose|i: int|
                0 <= i < head.len() && g.in_bounds(x + i, y) && g.cell(x + i, y) != white(
                    #[trigger] head[i],
                );
            assert(text[i] == head[i]);
        }
        if string_changes(g, x, y, text) {
            let i = choose|i: int|
                0 <= i < text.len() && g.in_bounds(x + i, y) && g.cell(x + i, y) != white(
                    #[trigger] text[i],
                );
            if i < n - 1 {
                assert(head[i] == text[i]);
            }
        }
    }
}

/// What the two horizontal sides do, cell by cell.
pub proof fn lemma_put_horizontal(g: Grid, from: int, to: int, bottom: int, top: int)
    requires
        g.wf(),
    ensures
        written(g, g.put_horizontal(from, to, bottom, top)),
        forall|cx: int, cy: int|
            g.in_bounds(cx, cy) ==> #[trigger] g.put_horizontal(from, to, bottom, top).cell(cx, cy)
                == if from <= cx < to && (cy == bottom || cy == top) {
                box_horizontal()
            } else {
                g.cell(cx, cy)
            },
    decreases to - from,
{
    if from < to {
        let before = g.put_horizontal(from, to - 1, bottom, top);
        let middle = before.put(to - 1, bottom, box_horizontal());
        let after = g.put_horizontal(from, to, bottom, top);
        lemma_put_horizontal(g, from, to - 1, bottom, top);
        lemma_put(before, to - 1, bottom, box_horizontal());
        lemma_put(middle, to - 1, top, box_horizontal());
        assert forall|cx: int, cy: int| g.in_bounds(cx, cy) implies #[trigger] after.cell(cx, cy)
            == if from <= cx < to && (cy == bottom || cy == top) {
            box_horizontal()
        } else {
            g.cell(cx, cy)
        } by {
            assert(before.in_bounds(cx, cy) && middle.in_bounds(cx, cy));
            assert(middle.cell(cx, cy) == if cx == to - 1 && cy == bottom {
                box_horizontal()
            } else {
                before.cell(cx, cy)
            });
        }
    }
}

/// What the two vertical sides do, cell by cell.
pub proof fn lemma_put_vertical(g: Grid, from: int, to: int, left: int, right: int)
    requires
        g.wf(),
    ensures
        written(g, g.put_vertical(from, to, left, right)),
        forall|cx: int, cy: int|
            g.in_bounds(cx, cy) ==> #[trigger] g.put_vertical(from, to, left, right).cell(cx, cy)
                == if from <= cy < to && (cx == left || cx == right) {
                box_vertical()
            } else {
                g.cell(cx, cy)
            },
    decreases to - from,
{
    if from < to {
        let before = g.put_vertical(from, to - 1, left, right);
        let middle = before.put(left, to - 1, box_vertical());
        let after = g.put_vertical(from, to, left, right);
        lemma_put_vertical(g, from, to - 1, left, right);
        lemma_put(before, left, to - 1, box_vertical());
        lemma_put(middle, right, to - 1, box_vertical());
        assert forall|cx: int, cy: int| g.in_bounds(cx, cy) implies #[trigger] after.cell(cx, cy)
            == if from <= cy < to && (cx == left || cx == right) {
            box_vertical()
        } else {
            g.cell(cx, cy)
        } by {
            assert(before.in_bounds(cx, cy) && middle.in_bounds(cx, cy));
            assert(middle.cell(cx, cy) == if cx == left && cy == to - 1 {
                box_vertical()
            } else {
                before.cell(cx, cy)
            });
        }
    }
}

/// What drawing a box does, cell by cell: the cells of the border hold
/// their glyphs, and every other cell, inside the box or outside, is as it
/// was.
pub proof fn lemma_put_box(g: Grid, x: int, y: int, w: nat, h: nat)
    requires
        g.wf(),
    ensures
        written(g, g.put_box(x, y, w, h)),
        forall|cx: int, cy: int|
            g.in_bounds(cx, cy) ==> #[trigger] g.put_box(x, y, w, h).cell(cx, cy) == match box_sprite(
                x,
                y,
                w,
                h,
                cx,
                cy,
            ) {
                Some(sprite) => sprite,
                None => g.cell(cx, cy),
            },
{
    let right = x + w - 1;
    let top = y + h - 1;
    let g1 = g.put(x, y, box_bottom_left());
    let g2 = g1.put(right, y, box_bottom_right());
    let g3 = g2.put(x, top, box_top_left());
    let g4 = g3.put(right, top, box_top_right());
    let g5 = g4.put_horizontal(x + 1, right, y, top);
    let g6 = g5.put_vertical(y + 1, top, x, right);
    lemma_put(g, x, y, box_bottom_left());
    lemma_put(g1, right, y, box_bottom_right());
    lemma_put(g2, x, top, box_top_left());
    lemma_put(g3, right, top, box_top_right());
    lemma_put_horizontal(g4, x + 1, right, y, top);
    lemma_put_vertical(g5, y + 1, top, x, right);
    assert forall|cx: int, cy: int| g.in_bounds(cx, cy) implies #[trigger] g6.cell(cx, cy)
        == match box_sprite(x, y, w, h, cx, cy) {
        Some(sprite) => sprite,
        None => g.cell(cx, cy),
    } by {
        assert(g1.in_bounds(cx, cy) && g2.in_bounds(cx, cy) && g3.in_bounds(cx, cy)
            && g4.in_bounds(cx, cy) && g5.in_bounds(cx, cy));
        assert(g1.cell(cx, cy) == if cx == x && cy == y {
            box_bottom_left()
        } else {
            g.cell(cx, cy)
        });
        assert(g2.cell(cx, cy) == if cx == right && cy == y {
            box_bottom_right()
        } else {
            g1.cell(cx, cy)
        });
        assert(g3.cell(cx, cy) == if cx == x && cy == top {
            box_top_left()
        } else {
            g2.cell(cx, cy)
        });
        assert(g4.cell(cx, cy) == if cx == right && cy == top {
            box_top_right()
        } else {
            g3.cell(cx, cy)
        });
        assert(g5.cell(cx, cy) == if x + 1 <= cx < right && (cy == y || cy == top) {
            box_horizontal()
        } else {
            g4.cell(cx, cy)
        });
    }
}

} // verus!
