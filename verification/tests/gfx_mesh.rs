use rostige_schlange::gfx::{
    clear, color_green, color_red, color_white, draw_box, draw_cell, draw_string, render, upload,
    DrawCall, Renderer, Sprite, Window,
};
use rostige_schlange::mesh::{
    glyph_byte, glyph_uv, UvRect, Vertex, ATLAS_HEIGHT, ATLAS_WIDTH,
};

fn renderer_30_by_15() -> Renderer {
    let window = Window::new(240, 240);
    Renderer::new(&window)
}

fn vertex(x: u32, y: u32, rgb: (u8, u8, u8), u: u32, v: u32) -> Vertex {
    Vertex { x, y, r: rgb.0, g: rgb.1, b: rgb.2, u, v }
}

#[test]
fn uv_of_glyph_65_is_column_1_row_4() {
    let uv = glyph_uv(65);
    assert_eq!(uv, UvRect { u0: 8, v0: 64, u1: 16, v1: 80 });
    assert_eq!(uv.u0 / 8, 1);
    assert_eq!(uv.v0 / 16, 4);
    assert_eq!(uv.u0 as f32 / ATLAS_WIDTH as f32, 0.0625);
    assert_eq!(uv.v0 as f32 / ATLAS_HEIGHT as f32, 0.25);
    assert_eq!(uv.u1 as f32 / ATLAS_WIDTH as f32, 0.0625 + 8.0 / 128.0);
    assert_eq!(uv.v1 as f32 / ATLAS_HEIGHT as f32, 0.25 + 16.0 / 256.0);
}

#[test]
fn uv_of_the_first_and_the_last_glyph_lie_in_the_corners_of_the_atlas() {
    assert_eq!(glyph_uv(0), UvRect { u0: 0, v0: 0, u1: 8, v1: 16 });
    assert_eq!(glyph_uv(15), UvRect { u0: 120, v0: 0, u1: 128, v1: 16 });
    assert_eq!(glyph_uv(16), UvRect { u0: 0, v0: 16, u1: 8, v1: 32 });
    assert_eq!(glyph_uv(255), UvRect { u0: 120, v0: 240, u1: 128, v1: 256 });
}

#[test]
fn every_glyph_has_its_own_cell_inside_the_atlas() {
    for glyph in 0..=255u8 {
        let uv = glyph_uv(glyph);
        assert_eq!(uv.u0, (glyph as u32 % 16) * 8);
        assert_eq!(uv.v0, (glyph as u32 / 16) * 16);
        assert_eq!(uv.u1, uv.u0 + 8);
        assert_eq!(uv.v1, uv.v0 + 16);
        assert!(uv.u1 <= ATLAS_WIDTH && uv.v1 <= ATLAS_HEIGHT);
    }
}

#[test]
fn glyph_byte_is_the_code_point_cut_to_eight_bits() {
    assert_eq!(glyph_byte('A'), 65);
    assert_eq!(glyph_byte(' '), 32);
    assert_eq!(glyph_byte('\u{1}'), 1);
    assert_eq!(glyph_byte('\u{c4}'), 196);
    assert_eq!(glyph_byte('\u{ff}'), 255);
    assert_eq!(glyph_byte('\u{100}'), 0);
    assert_eq!(glyph_byte('\u{20ac}'), 0xac);
    assert_eq!(glyph_byte('\u{10ffff}'), 0xff);
}

#[test]
fn mesh_of_one_cell_is_one_quad_of_two_triangles() {
    let mut renderer = renderer_30_by_15();
    draw_cell(&mut renderer, 2, 3, Sprite::new('A', color_green()));
    upload(&mut renderer);
    let green = (0, 255, 0);
    assert_eq!(
        renderer.vertex_data(),
        &vec![
            vertex(16, 64, green, 8, 64),
            vertex(24, 64, green, 16, 64),
            vertex(24, 48, green, 16, 80),
            vertex(16, 48, green, 8, 80),
        ]
    );
    assert_eq!(renderer.element_data(), &vec![0, 1, 2, 2, 3, 0]);
}

#[test]
fn mesh_lists_the_cells_row_by_row_and_numbers_the_vertices_in_turn() {
    let mut renderer = renderer_30_by_15();
    draw_cell(&mut renderer, 29, 14, Sprite::new('c', color_white()));
    draw_cell(&mut renderer, 1, 1, Sprite::new('b', color_red()));
    draw_cell(&mut renderer, 0, 0, Sprite::new('a', color_green()));
    upload(&mut renderer);
    let white = (255, 255, 255);
    let red = (255, 0, 0);
    let green = (0, 255, 0);
    assert_eq!(
        renderer.vertex_data(),
        &vec![
            vertex(0, 16, green, 8, 96),
            vertex(8, 16, green, 16, 96),
            vertex(8, 0, green, 16, 112),
            vertex(0, 0, green, 8, 112),
            vertex(8, 32, red, 16, 96),
            vertex(16, 32, red, 24, 96),
            vertex(16, 16, red, 24, 112),
            vertex(8, 16, red, 16, 112),
            vertex(232, 240, white, 24, 96),
            vertex(240, 240, white, 32, 96),
            vertex(240, 224, white, 32, 112),
            vertex(232, 224, white, 24, 112),
        ]
    );
    assert_eq!(
        renderer.element_data(),
        &vec![0, 1, 2, 2, 3, 0, 4, 5, 6, 6, 7, 4, 8, 9, 10, 10, 11, 8]
    );
}

#[test]
fn mesh_skips_cells_whose_glyph_is_the_space_whatever_their_color() {
    let mut renderer = renderer_30_by_15();
    draw_cell(&mut renderer, 3, 3, Sprite::new(' ', color_red()));
    assert!(renderer.needs_rebuild());
    let call = render(&mut renderer);
    assert_eq!(call, DrawCall { upload: true, index_count: 0 });
    assert!(renderer.vertex_data().is_empty());
    assert!(renderer.element_data().is_empty());
}

#[test]
fn mesh_has_four_vertices_and_six_indices_for_each_visible_cell() {
    let mut renderer = renderer_30_by_15();
    draw_string(&mut renderer, 1, 14, "SCORE: 12");
    draw_box(&mut renderer, 0, 0, 29, 14);
    draw_cell(&mut renderer, 7, 7, Sprite::new('$', color_green()));
    let mut visible = 0;
    for y in 0..15 {
        for x in 0..30 {
            if renderer.cell(x, y).unwrap().graphic != ' ' {
                visible += 1;
            }
        }
    }
    assert_eq!(visible, 8 + (2 * 29 + 2 * 14 - 4) + 1);
    upload(&mut renderer);
    assert_eq!(renderer.vertex_data().len(), 4 * visible);
    assert_eq!(renderer.element_data().len(), 6 * visible);
    for (i, index) in renderer.element_data().iter().enumerate() {
        let quad = (i / 6) as u32;
        let corner = [0, 1, 2, 2, 3, 0][i % 6];
        assert_eq!(*index, 4 * quad + corner);
    }
}

#[test]
fn rebuilding_twice_without_a_write_gives_the_same_buffers() {
    let mut renderer = renderer_30_by_15();
    draw_string(&mut renderer, 2, 2, "twice");
    upload(&mut renderer);
    let vertices = renderer.vertex_data().clone();
    let indices = renderer.element_data().clone();
    assert_eq!(vertices.len(), 20);
    upload(&mut renderer);
    assert_eq!(renderer.vertex_data(), &vertices);
    assert_eq!(renderer.element_data(), &indices);
    assert!(!renderer.needs_rebuild());
}

#[test]
fn rebuild_replaces_the_buffers_and_does_not_add_to_them() {
    let mut renderer = renderer_30_by_15();
    draw_string(&mut renderer, 0, 0, "abc");
    upload(&mut renderer);
    assert_eq!(renderer.element_data().len(), 18);
    clear(&mut renderer);
    draw_string(&mut renderer, 0, 0, "z");
    upload(&mut renderer);
    assert_eq!(renderer.vertex_data().len(), 4);
    assert_eq!(renderer.element_data(), &vec![0, 1, 2, 2, 3, 0]);
    clear(&mut renderer);
    upload(&mut renderer);
    assert!(renderer.vertex_data().is_empty());
    assert!(renderer.element_data().is_empty());
}

#[test]
fn upload_leaves_the_cells_and_clears_the_dirty_flag() {
    let mut renderer = renderer_30_by_15();
    draw_string(&mut renderer, 4, 4, "keep");
    upload(&mut renderer);
    assert!(!renderer.needs_rebuild());
    assert_eq!(renderer.cell(4, 4), Some(Sprite::new('k', color_white())));
    assert_eq!(renderer.cell(7, 4), Some(Sprite::new('p', color_white())));
}

#[test]
fn render_rebuilds_only_a_dirty_grid() {
    let mut renderer = renderer_30_by_15();
    assert_eq!(render(&mut renderer), DrawCall { upload: false, index_count: 0 });

    draw_string(&mut renderer, 0, 0, "ab");
    assert_eq!(render(&mut renderer), DrawCall { upload: true, index_count: 12 });
    assert!(!renderer.needs_rebuild());
    assert_eq!(render(&mut renderer), DrawCall { upload: false, index_count: 12 });

    draw_string(&mut renderer, 0, 0, "ab");
    assert_eq!(render(&mut renderer), DrawCall { upload: false, index_count: 12 });

    clear(&mut renderer);
    assert_eq!(renderer.element_data().len(), 12);
    assert_eq!(render(&mut renderer), DrawCall { upload: true, index_count: 0 });
}

#[test]
fn render_draws_the_last_rebuild_until_the_grid_is_dirty_again() {
    let mut renderer = renderer_30_by_15();
    draw_string(&mut renderer, 0, 0, "ab");
    render(&mut renderer);
    let vertices = renderer.vertex_data().clone();
    draw_cell(&mut renderer, 5, 5, Sprite::new('x', color_red()));
    assert_eq!(renderer.vertex_data(), &vertices);
    let call = render(&mut renderer);
    assert_eq!(call, DrawCall { upload: true, index_count: 18 });
    assert_eq!(renderer.vertex_data().len(), 12);
}

#[test]
fn a_frame_of_clear_draw_render_uploads_each_time() {
    let mut renderer = renderer_30_by_15();
    for _ in 0..3 {
        clear(&mut renderer);
        draw_box(&mut renderer, 0, 0, 29, 14);
        let call = render(&mut renderer);
        assert_eq!(call, DrawCall { upload: true, index_count: 6 * 82 });
    }
}
