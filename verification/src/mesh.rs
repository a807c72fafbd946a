//! The mesh: one textured quad per visible cell, in row-major cell order.

use crate::gfx::{Color, Sprite, CELL_HEIGHT, CELL_WIDTH};
use vstd::prelude::*;

verus! {

/// Width of the font atlas in texels: 16 glyph columns.
pub const ATLAS_WIDTH: u32 = 128;

/// Height of the font atlas in texels: 16 glyph rows.
pub const ATLAS_HEIGHT: u32 = 256;

/// One mesh vertex, in integer units: the position in pixels from the
/// bottom-left corner, the colour as channel bytes (`c` for `c / 255`), and
/// the texture coordinate in texels of the atlas (`u` for `u / ATLAS_WIDTH`,
/// `v` for `v / ATLAS_HEIGHT`).
#[derive(Copy, Clone, PartialEq, Eq, Structural, Debug)]
pub struct Vertex {
    pub x: u32,
    pub y: u32,
    pub r: u8,
    pub g: u8,
    pub b: u8,
    pub u: u32,
    pub v: u32,
}

/// The rectangle of a glyph in the atlas, in texels.
#[derive(Copy, Clone, PartialEq, Eq, Structural, Debug)]
pub struct UvRect {
    pub u0: u32,
    pub v0: u32,
    pub u1: u32,
    pub v1: u32,
}

/// The vertex and index buffers.
pub struct Mesh {
    pub vertices: Seq<Vertex>,
    pub indices: Seq<u32>,
}

/// A grid of this size has pixel coordinates that fit in 32 bits and, with
/// six indices to a cell, an index count that fits the signed 32-bit count
/// of a draw call.
pub open spec fn grid_fits(cols: nat, rows: nat) -> bool {
    &&& cols * CELL_WIDTH <= u32::MAX
    &&& rows * CELL_HEIGHT <= u32::MAX
    &&& 6 * (cols * rows) <= i32::MAX
}

/// The byte that indexes the glyph of a character in the atlas: its code
/// point, truncated to eight bits.
pub open spec fn glyph_of(graphic: char) -> u8 {
    (graphic as u32 % 256) as u8
}

/// Glyph `g` sits in column `g mod 16` and row `g div 16` of the atlas.
pub open spec fn uv_of(glyph: u8) -> UvRect {
    let column = glyph as int % 16;
    let row = glyph as int / 16;
    UvRect {
        u0: (column * CELL_WIDTH) as u32,
        v0: (row * CELL_HEIGHT) as u32,
        u1: (column * CELL_WIDTH + CELL_WIDTH) as u32,
        v1: (row * CELL_HEIGHT + CELL_HEIGHT) as u32,
    }
}

/// The atlas byte of a character.
pub fn glyph_byte(graphic: char) -> (glyph: u8)
    ensures
        glyph == glyph_of(graphic),
{
    (graphic as u32 % 256) as u8
}

/// The rectangle of glyph `glyph` in the atlas. It lies inside the atlas
/// and is one cell wide and one cell high.
pub fn glyph_uv(glyph: u8) -> (uv: UvRect)
    ensures
        uv == uv_of(glyph),
        uv.u0 == (glyph % 16) * CELL_WIDTH,
        uv.v0 == (glyph / 16) * CELL_HEIGHT,
        uv.u1 == uv.u0 + CELL_WIDTH,
        uv.v1 == uv.v0 + CELL_HEIGHT,
        uv.u1 <= ATLAS_WIDTH,
        uv.v1 <= ATLAS_HEIGHT,
{
    let column: u32 = (glyph % 16) as u32;
    let row: u32 = (glyph / 16) as u32;
    let u0: u32 = column * CELL_WIDTH;
    let v0: u32 = row * CELL_HEIGHT;
    UvRect { u0, v0, u1: u0 + CELL_WIDTH, v1: v0 + CELL_HEIGHT }
}

/// A cell is drawn unless its glyph is the space.
pub open spec fn visible(sprite: Sprite) -> bool {
    sprite.graphic != ' '
}

pub open spec fn vertex(x: int, y: int, color: Color, u: u32, v: u32) -> Vertex {
    Vertex { x: x as u32, y: y as u32, r: color.r, g: color.g, b: color.b, u, v }
}

/// The four corners of the cell at (col, row): top-left, top-right,
/// bottom-right, bottom-left. The top of the glyph is at `v0`.
pub open spec fn quad(col: int, row: int, sprite: Sprite) -> Seq<Vertex> {
    let uv = uv_of(glyph_of(sprite.graphic));
    let left = col * CELL_WIDTH;
    let bottom = row * CELL_HEIGHT;
    let right = left + CELL_WIDTH;
    let top = bottom + CELL_HEIGHT;
    seq![
        vertex(left, top, sprite.color, uv.u0, uv.v0),
        vertex(right, top, sprite.color, uv.u1, uv.v0),
        vertex(right, bottom, sprite.color, uv.u1, uv.v1),
        vertex(left, bottom, sprite.color, uv.u0, uv.v1),
    ]
}

/// Two counter-clockwise triangles over the four vertices that start at
/// `first`: top-left, top-right, bottom-right, then bottom-right,
/// bottom-left, top-left.
pub open spec fn quad_indices(first: int) -> Seq<u32> {
    seq![
        first as u32,
        (first + 1) as u32,
        (first + 2) as u32,
        (first + 2) as u32,
        (first + 3) as u32,
        first as u32,
    ]
}

/// How many of the cells are drawn.
pub open spec fn visible_count(cells: Seq<Sprite>) -> nat
    decreases cells.len(),
{
    if cells.len() == 0 {
        0
    } else {
        visible_count(cells.drop_last()) + if visible(cells.last()) {
            1nat
        } else {
            0nat
        }
    }
}

/// The quads of the visible cells, in row-major order of the cells.
pub open spec fn mesh_vertices(cols: nat, cells: Seq<Sprite>) -> Seq<Vertex>
    decreases cells.len(),
{
    if cells.len() == 0 {
        Seq::empty()
    } else {
        let i = cells.len() - 1;
        let before = mesh_vertices(cols, cells.drop_last());
        if visible(cells.last()) {
            before + quad(i % (cols as int), i / (cols as int), cells.last())
        } else {
            before
        }
    }
}

/// The triangles of the visible cells; the n-th visible cell owns the
/// vertices 4n to 4n + 3.
pub open spec fn mesh_indices(cells: Seq<Sprite>) -> Seq<u32>
    decreases cells.len(),
{
    if cells.len() == 0 {
        Seq::empty()
    } else {
        let before = mesh_indices(cells.drop_last());
        if visible(cells.last()) {
            before + quad_indices(4 * visible_count(cells.drop_last()) as int)
        } else {
            before
        }
    }
}

pub open spec fn mesh_of(cols: nat, cells: Seq<Sprite>) -> Mesh {
    Mesh { vertices: mesh_vertices(cols, cells), indices: mesh_indices(cells) }
}

/// No more cells are drawn than there are.
pub proof fn lemma_visible_count_bound(cells: Seq<Sprite>)
    ensures
        visible_count(cells) <= cells.len(),
    decreases cells.len(),
{
    if cells.len() > 0 {
        lemma_visible_count_bound(cells.drop_last());
    }
}

/// The mesh holds four vertices and six indices for each visible cell.
pub proof fn lemma_mesh_len(cols: nat, cells: Seq<Sprite>)
    ensures
        mesh_vertices(cols, cells).len() == 4 * visible_count(cells),
        mesh_indices(cells).len() == 6 * visible_count(cells),
    decreases cells.len(),
{
    if cells.len() > 0 {
        lemma_mesh_len(cols, cells.drop_last());
    }
}

/// Cells that are all invisible have the empty mesh.
pub proof fn lemma_mesh_of_invisible(cols: nat, cells: Seq<Sprite>)
    requires
        forall|i: int| 0 <= i < cells.len() ==> !visible(#[trigger] cells[i]),
    ensures
        visible_count(cells) == 0,
        mesh_vertices(cols, cells) == Seq::<Vertex>::empty(),
        mesh_indices(cells) == Seq::<u32>::empty(),
    decreases cells.len(),
{
    if cells.len() > 0 {
        lemma_mesh_of_invisible(cols, cells.drop_last());
    }
}

} // verus!
