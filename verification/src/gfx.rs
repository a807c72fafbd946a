//! The renderer core: colours, sprites, the window's state and the draw
//! operations that write cells of the grid.

use crate::grid::{
    blank, decimal, digit, box_bottom_left, box_bottom_right, box_horizontal, box_sprite, box_top_left,
    box_top_right, box_vertical, lemma_index, lemma_put, lemma_put_box, lemma_put_string, string_changes,
    white, written, Grid,
};
use crate::mesh::{
    glyph_byte, glyph_uv, grid_fits, lemma_mesh_len, lemma_mesh_of_invisible,
    lemma_visible_count_bound, mesh_indices, mesh_of, mesh_vertices, quad, quad_indices,
    visible_count, Mesh, Vertex,
};
use vstd::prelude::*;

verus! {

/// Width of one grid cell, and of one glyph in the atlas, in pixels.
pub const CELL_WIDTH: u32 = 8;

/// Height of one grid cell, and of one glyph in the atlas, in pixels.
pub const CELL_HEIGHT: u32 = 16;

/// An RGBA colour. Each channel is stored as a byte `c` and stands for the
/// normalised intensity `c / 255`.
#[derive(Copy, Clone, PartialEq, Eq, Structural, Debug)]
pub struct Color {
    pub r: u8,
    pub g: u8,
    pub b: u8,
    pub a: u8,
}

impl Color {
    /// A colour from its four channel bytes.
    pub fn new(r: u8, g: u8, b: u8, a: u8) -> (color: Color)
        ensures
            color == (Color { r, g, b, a }),
    {
        Color { r, g, b, a }
    }
}

pub fn color_black() -> (color: Color)
    ensures
        color == (Color { r: 0, g: 0, b: 0, a: 255 }),
{
    Color { r: 0, g: 0, b: 0, a: 255 }
}

pub fn color_white() -> (color: Color)
    ensures
        color == (Color { r: 255, g: 255, b: 255, a: 255 }),
{
    Color { r: 255, g: 255, b: 255, a: 255 }
}

/// Two fifths of full intensity on each channel.
pub fn color_gray() -> (color: Color)
    ensures
        color == (Color { r: 102, g: 102, b: 102, a: 255 }),
{
    Color { r: 102, g: 102, b: 102, a: 255 }
}

pub fn color_red() -> (color: Color)
    ensures
        color == (Color { r: 255, g: 0, b: 0, a: 255 }),
{
    Color { r: 255, g: 0, b: 0, a: 255 }
}

pub fn color_green() -> (color: Color)
    ensures
        color == (Color { r: 0, g: 255, b: 0, a: 255 }),
{
    Color { r: 0, g: 255, b: 0, a: 255 }
}

pub fn color_blue() -> (color: Color)
    ensures
        color == (Color { r: 0, g: 0, b: 255, a: 255 }),
{
    Color { r: 0, g: 0, b: 255, a: 255 }
}

/// One grid cell: a glyph and the colour it is drawn in.
#[derive(Copy, Clone, PartialEq, Eq, Structural, Debug)]
pub struct Sprite {
    pub graphic: char,
    pub color: Color,
}

impl Sprite {
    pub fn new(graphic: char, color: Color) -> (sprite: Sprite)
        ensures
            sprite == (Sprite { graphic, color }),
    {
        Sprite { graphic, color }
    }
}

/// The blank cell. The mesh holds no quad for it.
pub fn sprite_none() -> (sprite: Sprite)
    ensures
        sprite == blank(),
{
    Sprite { graphic: ' ', color: color_white() }
}

pub fn sprite_box_bottom_left() -> (sprite: Sprite)
    ensures
        sprite == box_bottom_left(),
{
    Sprite { graphic: '\u{c0}', color: color_white() }
}

pub fn sprite_box_bottom_right() -> (sprite: Sprite)
    ensures
        sprite == box_bottom_right(),
{
    Sprite { graphic: '\u{d9}', color: color_white() }
}

pub fn sprite_box_top_left() -> (sprite: Sprite)
    ensures
        sprite == box_top_left(),
{
    Sprite { graphic: '\u{da}', color: color_white() }
}

pub fn sprite_box_top_right() -> (sprite: Sprite)
    ensures
        sprite == box_top_right(),
{
    Sprite { graphic: '\u{bf}', color: color_white() }
}

pub fn sprite_box_horizontal() -> (sprite: Sprite)
    ensures
        sprite == box_horizontal(),
{
    Sprite { graphic: '\u{c4}', color: color_white() }
}

pub fn sprite_box_vertical() -> (sprite: Sprite)
    ensures
        sprite == box_vertical(),
{
    Sprite { graphic: '\u{b3}', color: color_white() }
}

/// The logical state of the window: its size in pixels and whether the user
/// asked to close it.
pub struct Window {
    pub width: u32,
    pub height: u32,
    pub is_close_requested: bool,
}

impl Window {
    pub fn new(width: u32, height: u32) -> (window: Window)
        ensures
            window.width == width,
            window.height == height,
            !window.is_close_requested,
    {
        Window { width, height, is_close_requested: false }
    }
}

/// Records a new window size. The grid of a renderer made for the window
/// keeps the size it was made with.
pub fn resize_window(window: &mut Window, width: u32, height: u32)
    ensures
        final(window).width == width,
        final(window).height == height,
        final(window).is_close_requested == old(window).is_close_requested,
{
    window.width = width;
    window.height = height;
}

/// What is left to do after `render`: send the buffers to the GPU if they
/// were rebuilt, then draw `index_count` indices as triangles.
#[derive(Copy, Clone, PartialEq, Eq, Structural, Debug)]
pub struct DrawCall {
    pub upload: bool,
    pub index_count: u32,
}

/// The cell grid with its dirty flag, and the mesh built at the last rebuild.
pub struct Renderer {
    cols: u32,
    rows: u32,
    cells: Vec<Sprite>,
    needs_rebuild: bool,
    vertex_data: Vec<Vertex>,
    element_data: Vec<u32>,
    /// The cells as they were when the mesh was last rebuilt.
    meshed: Ghost<Seq<Sprite>>,
}

impl View for Renderer {
    type V = Grid;

    closed spec fn view(&self) -> Grid {
        Grid {
            cols: self.cols as nat,
            rows: self.rows as nat,
            cells: self.cells@,
            dirty: self.needs_rebuild,
        }
    }
}

impl Renderer {
    /// The vertex and index buffers as they stand.
    pub closed spec fn mesh(&self) -> Mesh {
        Mesh { vertices: self.vertex_data@, indices: self.element_data@ }
    }

    /// The cells that the buffers were last built from.
    pub closed spec fn meshed(&self) -> Seq<Sprite> {
        self.meshed@
    }

    /// The grid is well formed and small enough for 32-bit pixel
    /// coordinates and vertex indices, and the buffers hold the mesh of the
    /// cells of the last rebuild.
    pub open spec fn wf(&self) -> bool {
        &&& self@.wf()
        &&& grid_fits(self@.cols, self@.rows)
        &&& self.meshed().len() == self@.cells.len()
        &&& self.mesh() == mesh_of(self@.cols, self.meshed())
    }

    /// The dirty flag tells the truth: unless it is set, the buffers were
    /// built from the cells as they are now.
    pub open spec fn in_sync(&self) -> bool {
        !self@.dirty ==> self.meshed() == self@.cells
    }

    /// A renderer for the window: a blank grid of as many whole cells as
    /// fit in the window, not dirty, with empty buffers.
    pub fn new(window: &Window) -> (renderer: Renderer)
        requires
            grid_fits((window.width / CELL_WIDTH) as nat, (window.height / CELL_HEIGHT) as nat),
        ensures
            renderer.wf(),
            renderer.in_sync(),
            renderer@.cols == window.width / CELL_WIDTH,
            renderer@.rows == window.height / CELL_HEIGHT,
            renderer@.cells == Seq::new(renderer@.cols * renderer@.rows, |i: int| blank()),
            !renderer@.dirty,
            renderer.mesh().vertices.len() == 0,
            renderer.mesh().indices.len() == 0,
    {
        let cols: u32 = window.width / CELL_WIDTH;
        let rows: u32 = window.height / CELL_HEIGHT;
        let cells = blank_cells(cols, rows);
        proof {
            lemma_mesh_of_invisible(cols as nat, cells@);
        }
        Renderer {
            cols,
            rows,
            cells,
            needs_rebuild: false,
            vertex_data: Vec::new(),
            element_data: Vec::new(),
            meshed: Ghost(cells@),
        }
    }

    /// Resets every cell to the blank cell. The dirty flag is left as it
    /// is: `clear` is the operation that also forces the next rebuild.
    pub fn clear_cells(&mut self)
        requires
            old(self).wf(),
        ensures
            final(self).wf(),
            final(self)@ == (Grid { dirty: old(self)@.dirty, ..old(self)@.cleared() }),
            final(self).mesh() == old(self).mesh(),
            final(self).meshed() == old(self).meshed(),
    {
        self.cells = blank_cells(self.cols, self.rows);
    }

    /// `after` is `self` after a rebuild: the cells are the same, the grid
    /// is not dirty, and the buffers hold the mesh of the cells.
    pub open spec fn rebuilt(&self, after: &Renderer) -> bool {
        &&& after.wf()
        &&& after.in_sync()
        &&& after@ == (Grid { dirty: false, ..self@ })
        &&& after.meshed() == self@.cells
        &&& after.mesh() == mesh_of(self@.cols, self@.cells)
    }

    /// The buffers hold four vertices and six indices for each cell that
    /// was visible at the last rebuild.
    pub proof fn lemma_mesh_counts(&self)
        requires
            self.wf(),
        ensures
            self.mesh().vertices.len() == 4 * visible_count(self.meshed()),
            self.mesh().indices.len() == 6 * visible_count(self.meshed()),
            visible_count(self.meshed()) <= self@.cols * self@.rows,
    {
        lemma_mesh_len(self@.cols, self.meshed());
        lemma_visible_count_bound(self.meshed());
    }

    /// A rebuild that follows a rebuild with no write in between leaves
    /// the same buffers.
    pub proof fn lemma_rebuild_twice(&self, once: &Renderer, twice: &Renderer)
        requires
            self.rebuilt(once),
            once.rebuilt(twice),
        ensures
            twice.mesh() == once.mesh(),
            twice@ == once@,
    {
    }

    pub fn cols(&self) -> (cols: u32)
        ensures
            cols == self@.cols,
    {
        self.cols
    }

    pub fn rows(&self) -> (rows: u32)
        ensures
            rows == self@.rows,
    {
        self.rows
    }

    /// The cell at (x, y), or nothing off the grid.
    pub fn cell(&self, x: i32, y: i32) -> (cell: Option<Sprite>)
        requires
            self.wf(),
        ensures
            cell == if self@.in_bounds(x as int, y as int) {
                Some(self@.cell(x as int, y as int))
            } else {
                None
            },
    {
        if x < 0 || y < 0 || x as u32 >= self.cols || y as u32 >= self.rows {
            return None;
        }
        proof {
            lemma_index(self@, x as int, y as int);
        }
        let index: usize = (y as u32 * self.cols + x as u32) as usize;
        Some(self.cells[index])
    }

    /// The vertex buffer.
    pub fn vertex_data(&self) -> (vertices: &Vec<Vertex>)
        ensures
            vertices@ == self.mesh().vertices,
    {
        &self.vertex_data
    }

    /// The index buffer.
    pub fn element_data(&self) -> (indices: &Vec<u32>)
        ensures
            indices@ == self.mesh().indices,
    {
        &self.element_data
    }

    /// Whether a cell changed since the mesh was last rebuilt.
    pub fn needs_rebuild(&self) -> (dirty: bool)
        ensures
            dirty == self@.dirty,
    {
        self.needs_rebuild
    }
}

/// Writes `sprite` to the cell at (x, y). A position off the grid is
/// ignored, and so is a write of the value that the cell already holds;
/// any other write marks the grid dirty. The buffers are not touched.
pub fn draw_cell(renderer: &mut Renderer, x: i32, y: i32, sprite: Sprite)
    requires
        old(renderer).wf(),
    ensures
        final(renderer).wf(),
        final(renderer)@ == old(renderer)@.put(x as int, y as int, sprite),
        !old(renderer)@.in_bounds(x as int, y as int) ==> final(renderer)@ == old(renderer)@,
        old(renderer)@.in_bounds(x as int, y as int) && old(renderer)@.cell(x as int, y as int)
            == sprite ==> final(renderer)@ == old(renderer)@,
        written(old(renderer)@, final(renderer)@),
        final(renderer).mesh() == old(renderer).mesh(),
        final(renderer).meshed() == old(renderer).meshed(),
        old(renderer).in_sync() ==> final(renderer).in_sync(),
{
    if x < 0 || y < 0 || x as u32 >= renderer.cols || y as u32 >= renderer.rows {
        return;
    }
    proof {
        lemma_index(renderer@, x as int, y as int);
        lemma_put(renderer@, x as int, y as int, sprite);
    }
    let index: usize = (y as u32 * renderer.cols + x as u32) as usize;
    if renderer.cells[index] != sprite {
        renderer.cells.set(index, sprite);
        renderer.needs_rebuild = true;
    }
}

/// Writes `string` in white, one cell for each character, from (x, y) to
/// the right. Nothing wraps: characters that fall off the grid are dropped.
pub fn draw_string(renderer: &mut Renderer, x: i32, y: i32, string: &str)
    requires
        old(renderer).wf(),
    ensures
        final(renderer).wf(),
        final(renderer)@ == old(renderer)@.put_string(x as int, y as int, string@),
        written(old(renderer)@, final(renderer)@),
        forall|cx: int, cy: int|
            old(renderer)@.in_bounds(cx, cy) ==> #[trigger] final(renderer)@.cell(cx, cy) == if cy
                == y && x <= cx < x + string@.len() {
                white(string@[cx - x])
            } else {
                old(renderer)@.cell(cx, cy)
            },
        final(renderer)@.dirty == (old(renderer)@.dirty || string_changes(
            old(renderer)@,
            x as int,
            y as int,
            string@,
        )),
        final(renderer).mesh() == old(renderer).mesh(),
        final(renderer).meshed() == old(renderer).meshed(),
        old(renderer).in_sync() ==> final(renderer).in_sync(),
{
    // The column of the next character; it stops at the largest i32, which
    // is off every grid.
    let mut column: i32 = x;
    for c in it: string.chars()
        invariant
            renderer.wf(),
            it.seq() == string@,
            column == if x + it.index() < i32::MAX { x + it.index() } else { i32::MAX as int },
            renderer@ == old(renderer)@.put_string(x as int, y as int, string@.take(it.index())),
            renderer.mesh() == old(renderer).mesh(),
            renderer.meshed() == old(renderer).meshed(),
            old(renderer).in_sync() ==> renderer.in_sync(),
    {
        proof {
            let i = it.index();
            assert(string@.take(i + 1).drop_last() == string@.take(i));
            assert(string@.take(i + 1).last() == c);
            assert(!renderer@.in_bounds(i32::MAX as int, y as int));
        }
        draw_cell(renderer, column, y, Sprite::new(c, color_white()));
        if column < i32::MAX {
            column += 1;
        }
    }
    proof {
        assert(string@.take(string@.len() as int) == string@);
        lemma_put_string(old(renderer)@, x as int, y as int, string@);
    }
}

/// The character of a decimal digit.
fn digit_char(d: u32) -> (c: char)
    requires
        d < 10,
    ensures
        c == digit(d as nat),
{
    (48u8 + d as u8) as char
}

/// Writes `value` in white decimal digits from (x, y) to the right, as
/// `draw_string` writes a string. Returns the column after the last digit,
/// or the largest i32 where that is smaller.
pub fn draw_number(renderer: &mut Renderer, x: i32, y: i32, value: u32) -> (end: i32)
    requires
        old(renderer).wf(),
    ensures
        final(renderer).wf(),
        final(renderer)@ == old(renderer)@.put_string(x as int, y as int, decimal(value as nat)),
        written(old(renderer)@, final(renderer)@),
        end == if x + decimal(value as nat).len() < i32::MAX {
            x + decimal(value as nat).len()
        } else {
            i32::MAX as int
        },
        final(renderer).mesh() == old(renderer).mesh(),
        final(renderer).meshed() == old(renderer).meshed(),
        old(renderer).in_sync() ==> final(renderer).in_sync(),
    decreases value,
{
    let column: i32 = if value >= 10 {
        draw_number(renderer, x, y, value / 10)
    } else {
        x
    };
    let ghost text = decimal(value as nat);
    proof {
        if value >= 10 {
            assert(text.drop_last() == decimal(value as nat / 10));
        } else {
            assert(text.drop_last() == Seq::<char>::empty());
            assert(old(renderer)@.put_string(x as int, y as int, text.drop_last())
                == old(renderer)@);
        }
        assert(text.last() == digit(value as nat % 10));
        assert(renderer@ == old(renderer)@.put_string(x as int, y as int, text.drop_last()));
        assert(!renderer@.in_bounds(i32::MAX as int, y as int));
    }
    draw_cell(renderer, column, y, Sprite::new(digit_char(value % 10), color_white()));
    assert(renderer@ == old(renderer)@.put_string(x as int, y as int, text.drop_last()).put(
        x + text.len() - 1,
        y as int,
        white(text.last()),
    ));
    if column < i32::MAX {
        column + 1
    } else {
        column
    }
}

/// Writes `sprite` at a position given in 64 bits. Positions beyond the
/// range of `draw_cell` are off every grid.
fn put(renderer: &mut Renderer, x: i64, y: i64, sprite: Sprite)
    requires
        old(renderer).wf(),
    ensures
        final(renderer).wf(),
        final(renderer)@ == old(renderer)@.put(x as int, y as int, sprite),
        final(renderer).mesh() == old(renderer).mesh(),
        final(renderer).meshed() == old(renderer).meshed(),
        old(renderer).in_sync() ==> final(renderer).in_sync(),
{
    if 0 <= x && x <= i32::MAX as i64 && 0 <= y && y <= i32::MAX as i64 {
        draw_cell(renderer, x as i32, y as i32, sprite);
    }
}

/// Draws the border of the box of `width` x `height` cells whose
/// bottom-left cell is (x, y): a corner glyph in each corner, the
/// horizontal glyph along the bottom and top rows between the corners, the
/// vertical glyph along the left and right columns between them. Cells
/// inside the box and outside it are not written. A box of width or height
/// 0 or 1 is drawn by the same rule: where two corners fall on one cell the
/// one written last shows, in the order bottom-left, bottom-right, top-left,
/// top-right.
pub fn draw_box(renderer: &mut Renderer, x: i32, y: i32, width: u32, height: u32)
    requires
        old(renderer).wf(),
    ensures
        final(renderer).wf(),
        final(renderer)@ == old(renderer)@.put_box(
            x as int,
            y as int,
            width as nat,
            height as nat,
        ),
        forall|cx: int, cy: int|
            old(renderer)@.in_bounds(cx, cy) ==> #[trigger] final(renderer)@.cell(cx, cy)
                == match box_sprite(x as int, y as int, width as nat, height as nat, cx, cy) {
                Some(sprite) => sprite,
                None => old(renderer)@.cell(cx, cy),
            },
        written(old(renderer)@, final(renderer)@),
        final(renderer).mesh() == old(renderer).mesh(),
        final(renderer).meshed() == old(renderer).meshed(),
        old(renderer).in_sync() ==> final(renderer).in_sync(),
{
    let left: i64 = x as i64;
    let bottom: i64 = y as i64;
    let right: i64 = x as i64 + width as i64 - 1;
    let top: i64 = y as i64 + height as i64 - 1;

    put(renderer, left, bottom, sprite_box_bottom_left());
    put(renderer, right, bottom, sprite_box_bottom_right());
    put(renderer, left, top, sprite_box_top_left());
    put(renderer, right, top, sprite_box_top_right());

    let ghost corners = renderer@;
    let mut i: i64 = left + 1;
    while i < right
        invariant
            renderer.wf(),
            left + 1 <= i,
            i <= right || i == left + 1,
            right <= i32::MAX + u32::MAX,
            renderer@ == corners.put_horizontal(left + 1, i as int, bottom as int, top as int),
            renderer.mesh() == old(renderer).mesh(),
            renderer.meshed() == old(renderer).meshed(),
            old(renderer).in_sync() ==> renderer.in_sync(),
        decreases right - i,
    {
        put(renderer, i, bottom, sprite_box_horizontal());
        put(renderer, i, top, sprite_box_horizontal());
        i += 1;
    }

    let ghost sides = renderer@;
    let mut j: i64 = bottom + 1;
    while j < top
        invariant
            renderer.wf(),
            bottom + 1 <= j,
            j <= top || j == bottom + 1,
            top <= i32::MAX + u32::MAX,
            renderer@ == sides.put_vertical(bottom + 1, j as int, left as int, right as int),
            renderer.mesh() == old(renderer).mesh(),
            renderer.meshed() == old(renderer).meshed(),
            old(renderer).in_sync() ==> renderer.in_sync(),
        decreases top - j,
    {
        put(renderer, left, j, sprite_box_vertical());
        put(renderer, right, j, sprite_box_vertical());
        j += 1;
    }

    proof {
        lemma_put_box(old(renderer)@, x as int, y as int, width as nat, height as nat);
    }
}

/// Blanks the grid and marks it dirty, even where it was blank already, so
/// that the next render rebuilds the buffers.
pub fn clear(renderer: &mut Renderer)
    requires
        old(renderer).wf(),
    ensures
        final(renderer).wf(),
        final(renderer)@ == old(renderer)@.cleared(),
        forall|x: int, y: int|
            final(renderer)@.in_bounds(x, y) ==> #[trigger] final(renderer)@.cell(x, y) == blank(),
        final(renderer)@.dirty,
        final(renderer).mesh() == old(renderer).mesh(),
        final(renderer).meshed() == old(renderer).meshed(),
        final(renderer).in_sync(),
{
    renderer.clear_cells();
    renderer.needs_rebuild = true;
    proof {
        assert forall|x: int, y: int| renderer@.in_bounds(x, y) implies #[trigger] renderer@.cell(
            x,
            y,
        ) == blank() by {
            lemma_index(renderer@, x, y);
        }
    }
}

/// Rebuilds both buffers from the cells as they are now and clears the dirty
/// flag. The buffers are rewritten from the start: one quad of four vertices
/// and two triangles of three indices for each visible cell, in row-major
/// order of the cells. The cells are not touched.
pub fn upload(renderer: &mut Renderer)
    requires
        old(renderer).wf(),
    ensures
        old(renderer).rebuilt(final(renderer)),
        final(renderer).mesh().vertices.len() == 4 * visible_count(old(renderer)@.cells),
        final(renderer).mesh().indices.len() == 6 * visible_count(old(renderer)@.cells),
{
    renderer.vertex_data.clear();
    renderer.element_data.clear();

    let ghost grid = renderer@;
    let cols: u32 = renderer.cols;
    let rows: u32 = renderer.rows;
    let mut row: u32 = 0;
    while row < rows
        invariant
            row <= rows,
            renderer@ == grid,
            grid.wf(),
            grid_fits(grid.cols, grid.rows),
            cols == grid.cols,
            rows == grid.rows,
            renderer.meshed == old(renderer).meshed,
            row * cols <= grid.cells.len(),
            renderer.vertex_data@ == mesh_vertices(grid.cols, grid.cells.take(row * cols)),
            renderer.element_data@ == mesh_indices(grid.cells.take(row * cols)),
        decreases rows - row,
    {
        let mut col: u32 = 0;
        while col < cols
            invariant
                row < rows,
                col <= cols,
                renderer@ == grid,
                grid.wf(),
                grid_fits(grid.cols, grid.rows),
                cols == grid.cols,
                rows == grid.rows,
                renderer.meshed == old(renderer).meshed,
                row * cols + col <= grid.cells.len(),
                renderer.vertex_data@ == mesh_vertices(
                    grid.cols,
                    grid.cells.take(row * cols + col),
                ),
                renderer.element_data@ == mesh_indices(grid.cells.take(row * cols + col)),
            decreases cols - col,
        {
            let ghost done = row * cols + col;
            proof {
                lemma_index(grid, col as int, row as int);
                lemma_mesh_len(grid.cols, grid.cells.take(done));
                lemma_visible_count_bound(grid.cells.take(done));
                assert(grid.cells.take(done + 1).drop_last() == grid.cells.take(done));
            }
            let index: usize = (row * cols + col) as usize;
            let cell: Sprite = renderer.cells[index];

            if cell.graphic != ' ' {
                let vertex_count: u32 = renderer.vertex_data.len() as u32;
                let left: u32 = col * CELL_WIDTH;
                let bottom: u32 = row * CELL_HEIGHT;
                let right: u32 = left + CELL_WIDTH;
                let top: u32 = bottom + CELL_HEIGHT;
                let uv = glyph_uv(glyph_byte(cell.graphic));
                let r: u8 = cell.color.r;
                let g: u8 = cell.color.g;
                let b: u8 = cell.color.b;

                let ghost vertices_before = renderer.vertex_data@;
                renderer.vertex_data.push(Vertex { x: left, y: top, r, g, b, u: uv.u0, v: uv.v0 });
                renderer.vertex_data.push(Vertex { x: right, y: top, r, g, b, u: uv.u1, v: uv.v0 });
                renderer.vertex_data.push(
                    Vertex { x: right, y: bottom, r, g, b, u: uv.u1, v: uv.v1 },
                );
                renderer.vertex_data.push(
                    Vertex { x: left, y: bottom, r, g, b, u: uv.u0, v: uv.v1 },
                );

                let ghost indices_before = renderer.element_data@;
                renderer.element_data.push(vertex_count);
                renderer.element_data.push(vertex_count + 1);
                renderer.element_data.push(vertex_count + 2);
                renderer.element_data.push(vertex_count + 2);
                renderer.element_data.push(vertex_count + 3);
                renderer.element_data.push(vertex_count);

                proof {
                    assert(renderer.vertex_data@ =~= vertices_before + quad(
                        col as int,
                        row as int,
                        cell,
                    ));
                    assert(renderer.element_data@ =~= indices_before + quad_indices(
                        vertex_count as int,
                    ));
                }
            }
            col += 1;
        }
        proof {
            assert(row * cols + cols == (row + 1) * cols) by (nonlinear_arith);
        }
        row += 1;
    }

    proof {
        assert(grid.cells.take(rows * cols) == grid.cells) by {
            assert(rows * cols == cols * rows) by (nonlinear_arith);
        }
        lemma_mesh_len(grid.cols, grid.cells);
    }
    renderer.needs_rebuild = false;
    renderer.meshed = Ghost(renderer.cells@);
}

/// Prepares the frame: rebuilds the buffers if the grid is dirty, and only
/// then; says whether it did, and how many indices the draw call covers,
/// which is the whole index buffer. After it the grid is not dirty, and
/// where the dirty flag told the truth the buffers hold the mesh of the
/// cells as they are.
pub fn render(renderer: &mut Renderer) -> (call: DrawCall)
    requires
        old(renderer).wf(),
    ensures
        final(renderer).wf(),
        final(renderer)@ == (Grid { dirty: false, ..old(renderer)@ }),
        call.upload == old(renderer)@.dirty,
        call.upload ==> old(renderer).rebuilt(final(renderer)),
        !call.upload ==> final(renderer).meshed() == old(renderer).meshed(),
        !call.upload ==> final(renderer).mesh() == old(renderer).mesh(),
        old(renderer).in_sync() ==> final(renderer).in_sync() && final(renderer).mesh() == mesh_of(
            old(renderer)@.cols,
            old(renderer)@.cells,
        ),
        call.index_count == final(renderer).mesh().indices.len(),
        call.index_count == 6 * visible_count(final(renderer).meshed()),
        call.index_count <= i32::MAX,
{
    let upload_needed = renderer.needs_rebuild;
    if upload_needed {
        upload(renderer);
    }
    proof {
        lemma_mesh_len(renderer@.cols, renderer.meshed());
        lemma_visible_count_bound(renderer.meshed());
    }
    DrawCall { upload: upload_needed, index_count: renderer.element_data.len() as u32 }
}

/// The cells of a blank grid.
fn blank_cells(cols: u32, rows: u32) -> (cells: Vec<Sprite>)
    requires
        6 * (cols * rows) <= i32::MAX,
    ensures
        cells@ == Seq::new(cols as nat * rows as nat, |i: int| blank()),
{
    assert(cols * rows <= u32::MAX);
    let count: usize = (cols * rows) as usize;
    let cells = vec![sprite_none(); count];
    assert(cells@ =~= Seq::new(cols as nat * rows as nat, |i: int| blank()));
    cells
}

} // verus!
