use rostige_schlange::gfx::{
    clear, color_black, color_blue, color_gray, color_green, color_red, color_white, draw_box,
    draw_cell, draw_number, draw_string, render, resize_window, sprite_box_bottom_left,
    sprite_box_bottom_right, sprite_box_horizontal, sprite_box_top_left, sprite_box_top_right,
    sprite_box_vertical, sprite_none, Color, Renderer, Sprite, Window, CELL_HEIGHT, CELL_WIDTH,
};

fn renderer_30_by_15() -> Renderer {
    let window = Window::new(30 * CELL_WIDTH, 15 * CELL_HEIGHT);
    Renderer::new(&window)
}

fn snapshot(renderer: &Renderer) -> Vec<Sprite> {
    let mut cells = Vec::new();
    for y in 0..renderer.rows() as i32 {
        for x in 0..renderer.cols() as i32 {
            cells.push(renderer.cell(x, y).unwrap());
        }
    }
    cells
}

fn white(graphic: char) -> Sprite {
    Sprite::new(graphic, color_white())
}

#[test]
fn named_colors_have_their_channels() {
    assert_eq!(color_black(), Color::new(0, 0, 0, 255));
    assert_eq!(color_white(), Color::new(255, 255, 255, 255));
    assert_eq!(color_gray(), Color::new(102, 102, 102, 255));
    assert_eq!(color_red(), Color::new(255, 0, 0, 255));
    assert_eq!(color_green(), Color::new(0, 255, 0, 255));
    assert_eq!(color_blue(), Color::new(0, 0, 255, 255));
    let gray = color_gray();
    assert_eq!(gray.r as f32 / 255.0, 0.4f32);
    assert_eq!(gray.a as f32 / 255.0, 1.0f32);
}

#[test]
fn sprites_compare_by_glyph_and_color() {
    assert_eq!(Sprite::new('x', color_red()), Sprite::new('x', color_red()));
    assert_ne!(Sprite::new('x', color_red()), Sprite::new('y', color_red()));
    assert_ne!(Sprite::new('x', color_red()), Sprite::new('x', color_blue()));
    assert_eq!(sprite_none(), Sprite::new(' ', color_white()));
}

#[test]
fn box_sprites_are_the_six_border_glyphs_in_white() {
    assert_eq!(sprite_box_bottom_left(), white(192u8 as char));
    assert_eq!(sprite_box_bottom_right(), white(217u8 as char));
    assert_eq!(sprite_box_top_left(), white(218u8 as char));
    assert_eq!(sprite_box_top_right(), white(191u8 as char));
    assert_eq!(sprite_box_horizontal(), white(196u8 as char));
    assert_eq!(sprite_box_vertical(), white(179u8 as char));
}

#[test]
fn window_starts_open_and_resize_sets_its_size() {
    let mut window = Window::new(240, 240);
    assert_eq!((window.width, window.height, window.is_close_requested), (240, 240, false));
    window.is_close_requested = true;
    resize_window(&mut window, 640, 480);
    assert_eq!((window.width, window.height, window.is_close_requested), (640, 480, true));
}

#[test]
fn new_renderer_has_as_many_whole_cells_as_fit() {
    let window = Window::new(247, 255);
    let renderer = Renderer::new(&window);
    assert_eq!(renderer.cols(), 30);
    assert_eq!(renderer.rows(), 15);
    assert!(!renderer.needs_rebuild());
    assert!(renderer.vertex_data().is_empty());
    assert!(renderer.element_data().is_empty());
    assert_eq!(snapshot(&renderer), vec![sprite_none(); 450]);
    assert_eq!(renderer.cell(30, 14), None);
    assert_eq!(renderer.cell(29, 15), None);
    assert_eq!(renderer.cell(-1, 0), None);
}

#[test]
fn renderer_of_a_window_smaller_than_a_cell_has_no_cells() {
    let window = Window::new(7, 15);
    let mut renderer = Renderer::new(&window);
    assert_eq!((renderer.cols(), renderer.rows()), (0, 0));
    draw_cell(&mut renderer, 0, 0, white('x'));
    draw_box(&mut renderer, 0, 0, 3, 3);
    assert!(!renderer.needs_rebuild());
    clear(&mut renderer);
    let call = render(&mut renderer);
    assert!(call.upload);
    assert_eq!(call.index_count, 0);
}

#[test]
fn grid_keeps_its_size_when_the_window_is_resized() {
    let mut window = Window::new(240, 240);
    let renderer = Renderer::new(&window);
    resize_window(&mut window, 800, 800);
    assert_eq!((renderer.cols(), renderer.rows()), (30, 15));
}

#[test]
fn draw_cell_stores_the_sprite_and_marks_dirty() {
    let mut renderer = renderer_30_by_15();
    let food = Sprite::new('$', color_green());
    draw_cell(&mut renderer, 4, 7, food);
    assert!(renderer.needs_rebuild());
    let mut expected = vec![sprite_none(); 450];
    expected[7 * 30 + 4] = food;
    assert_eq!(snapshot(&renderer), expected);
}

#[test]
fn draw_cell_off_the_grid_changes_nothing() {
    let mut renderer = renderer_30_by_15();
    draw_cell(&mut renderer, 3, 3, white('a'));
    render(&mut renderer);
    let before = snapshot(&renderer);
    let outside = [
        (-1, 0),
        (0, -1),
        (30, 0),
        (0, 15),
        (30, 15),
        (-1, -1),
        (29, 15),
        (30, 14),
        (i32::MAX, 3),
        (3, i32::MAX),
        (i32::MIN, 3),
        (3, i32::MIN),
        (i32::MIN, i32::MIN),
        (i32::MAX, i32::MAX),
    ];
    for (x, y) in outside {
        draw_cell(&mut renderer, x, y, white('#'));
        assert!(!renderer.needs_rebuild());
        assert_eq!(snapshot(&renderer), before);
    }
}

#[test]
fn draw_cell_with_the_value_already_there_does_not_mark_dirty() {
    let mut renderer = renderer_30_by_15();
    draw_cell(&mut renderer, 0, 0, sprite_none());
    draw_cell(&mut renderer, 29, 14, Sprite::new(' ', Color::new(255, 255, 255, 255)));
    assert!(!renderer.needs_rebuild());

    let food = Sprite::new('$', color_green());
    draw_cell(&mut renderer, 5, 5, food);
    assert!(renderer.needs_rebuild());
    render(&mut renderer);
    assert!(!renderer.needs_rebuild());
    draw_cell(&mut renderer, 5, 5, food);
    assert!(!renderer.needs_rebuild());
    draw_cell(&mut renderer, 5, 5, Sprite::new('$', color_red()));
    assert!(renderer.needs_rebuild());
}

#[test]
fn draw_cell_with_the_same_glyph_in_another_color_is_a_change() {
    let mut renderer = renderer_30_by_15();
    draw_cell(&mut renderer, 1, 1, Sprite::new(' ', color_black()));
    assert!(renderer.needs_rebuild());
    assert_eq!(renderer.cell(1, 1), Some(Sprite::new(' ', color_black())));
}

#[test]
fn clear_blanks_every_cell_and_always_marks_dirty() {
    let mut fresh = renderer_30_by_15();
    assert!(!fresh.needs_rebuild());
    clear(&mut fresh);
    assert!(fresh.needs_rebuild());
    assert_eq!(snapshot(&fresh), vec![sprite_none(); 450]);

    let mut used = renderer_30_by_15();
    draw_string(&mut used, 0, 0, "some text");
    draw_box(&mut used, 3, 3, 9, 9);
    render(&mut used);
    assert!(!used.needs_rebuild());
    clear(&mut used);
    assert!(used.needs_rebuild());
    assert_eq!(snapshot(&used), vec![sprite_none(); 450]);
    render(&mut used);
    clear(&mut used);
    assert!(used.needs_rebuild());
}

#[test]
fn clear_cells_blanks_the_cells_and_leaves_the_dirty_flag() {
    let mut renderer = renderer_30_by_15();
    draw_string(&mut renderer, 0, 0, "abc");
    render(&mut renderer);
    renderer.clear_cells();
    assert!(!renderer.needs_rebuild());
    assert_eq!(snapshot(&renderer), vec![sprite_none(); 450]);

    draw_string(&mut renderer, 0, 0, "abc");
    renderer.clear_cells();
    assert!(renderer.needs_rebuild());
    assert_eq!(snapshot(&renderer), vec![sprite_none(); 450]);
}

#[test]
fn draw_string_writes_one_white_cell_per_character() {
    let mut renderer = renderer_30_by_15();
    draw_cell(&mut renderer, 5, 5, Sprite::new('$', color_green()));
    let mut expected = snapshot(&renderer);
    draw_string(&mut renderer, 2, 3, "AB");
    expected[3 * 30 + 2] = Sprite::new('A', color_white());
    expected[3 * 30 + 3] = Sprite::new('B', color_white());
    assert_eq!(snapshot(&renderer), expected);
    assert_eq!(renderer.cell(2, 3), Some(Sprite::new('A', color_white())));
    assert_eq!(renderer.cell(3, 3), Some(Sprite::new('B', color_white())));
}

#[test]
fn draw_string_does_not_wrap_at_the_right_edge() {
    let mut renderer = renderer_30_by_15();
    draw_string(&mut renderer, 27, 4, "hello");
    let mut expected = vec![sprite_none(); 450];
    expected[4 * 30 + 27] = white('h');
    expected[4 * 30 + 28] = white('e');
    expected[4 * 30 + 29] = white('l');
    assert_eq!(snapshot(&renderer), expected);
}

#[test]
fn draw_string_that_starts_left_of_the_grid_shows_its_tail() {
    let mut renderer = renderer_30_by_15();
    draw_string(&mut renderer, -3, 0, "hello");
    let mut expected = vec![sprite_none(); 450];
    expected[0] = white('l');
    expected[1] = white('o');
    assert_eq!(snapshot(&renderer), expected);
}

#[test]
fn draw_string_off_the_grid_or_empty_changes_nothing() {
    let mut renderer = renderer_30_by_15();
    draw_string(&mut renderer, 0, 15, "hello");
    draw_string(&mut renderer, 0, -1, "hello");
    draw_string(&mut renderer, 30, 0, "hello");
    draw_string(&mut renderer, i32::MAX, 0, "hello");
    draw_string(&mut renderer, i32::MAX - 2, 0, "hello");
    draw_string(&mut renderer, i32::MIN, 0, "hello");
    draw_string(&mut renderer, 3, 3, "");
    assert!(!renderer.needs_rebuild());
    assert_eq!(snapshot(&renderer), vec![sprite_none(); 450]);
}

#[test]
fn draw_string_of_spaces_on_a_blank_grid_is_no_change() {
    let mut renderer = renderer_30_by_15();
    draw_string(&mut renderer, 3, 3, "   ");
    assert!(!renderer.needs_rebuild());
    draw_string(&mut renderer, 3, 3, " x ");
    assert!(renderer.needs_rebuild());
    assert_eq!(renderer.cell(4, 3), Some(white('x')));
}

#[test]
fn draw_string_takes_one_cell_for_a_character_of_several_bytes() {
    let mut renderer = renderer_30_by_15();
    draw_string(&mut renderer, 0, 0, "\u{e4}\u{20ac}z");
    assert_eq!(renderer.cell(0, 0), Some(white('\u{e4}')));
    assert_eq!(renderer.cell(1, 0), Some(white('\u{20ac}')));
    assert_eq!(renderer.cell(2, 0), Some(white('z')));
    assert_eq!(renderer.cell(3, 0), Some(sprite_none()));
}

#[test]
fn draw_number_writes_decimal_digits() {
    let mut renderer = renderer_30_by_15();
    assert_eq!(draw_number(&mut renderer, 0, 0, 0), 1);
    assert_eq!(draw_number(&mut renderer, 0, 1, 7), 1);
    assert_eq!(draw_number(&mut renderer, 0, 2, 10), 2);
    assert_eq!(draw_number(&mut renderer, 0, 3, 4096), 4);
    assert_eq!(draw_number(&mut renderer, 0, 4, u32::MAX), 10);
    assert_eq!(draw_number(&mut renderer, i32::MAX - 1, 5, 123), i32::MAX);
    let mut expected = renderer_30_by_15();
    draw_string(&mut expected, 0, 0, "0");
    draw_string(&mut expected, 0, 1, "7");
    draw_string(&mut expected, 0, 2, "10");
    draw_string(&mut expected, 0, 3, "4096");
    draw_string(&mut expected, 0, 4, "4294967295");
    assert_eq!(snapshot(&renderer), snapshot(&expected));
    assert_eq!(renderer.cell(3, 3), Some(white('6')));
}

#[test]
fn draw_box_writes_the_perimeter_and_leaves_the_interior() {
    let mut renderer = renderer_30_by_15();
    let marker = Sprite::new('m', color_red());
    draw_cell(&mut renderer, 1, 1, marker);
    draw_cell(&mut renderer, 2, 1, marker);
    draw_cell(&mut renderer, 3, 1, marker);
    draw_cell(&mut renderer, 5, 0, marker);
    draw_cell(&mut renderer, 0, 3, marker);
    let mut expected = snapshot(&renderer);
    draw_box(&mut renderer, 0, 0, 5, 3);

    let mut written = 0;
    let mut put = |x: usize, y: usize, sprite: Sprite| {
        expected[y * 30 + x] = sprite;
        written += 1;
    };
    put(0, 0, sprite_box_bottom_left());
    put(4, 0, sprite_box_bottom_right());
    put(0, 2, sprite_box_top_left());
    put(4, 2, sprite_box_top_right());
    for x in 1..4 {
        put(x, 0, sprite_box_horizontal());
        put(x, 2, sprite_box_horizontal());
    }
    put(0, 1, sprite_box_vertical());
    put(4, 1, sprite_box_vertical());
    assert_eq!(written, 2 * 5 + 2 * 3 - 4);
    assert_eq!(snapshot(&renderer), expected);
    assert_eq!(renderer.cell(1, 1), Some(marker));
    assert_eq!(renderer.cell(2, 1), Some(marker));
    assert_eq!(renderer.cell(3, 1), Some(marker));
}

#[test]
fn draw_box_is_clipped_at_the_edges_of_the_grid() {
    let mut renderer = renderer_30_by_15();
    draw_box(&mut renderer, 28, 13, 4, 4);
    let mut expected = vec![sprite_none(); 450];
    expected[13 * 30 + 28] = sprite_box_bottom_left();
    expected[13 * 30 + 29] = sprite_box_horizontal();
    expected[14 * 30 + 28] = sprite_box_vertical();
    assert_eq!(snapshot(&renderer), expected);

    let mut renderer = renderer_30_by_15();
    draw_box(&mut renderer, -2, -2, 4, 4);
    let mut expected = vec![sprite_none(); 450];
    expected[30 + 1] = sprite_box_top_right();
    expected[30] = sprite_box_horizontal();
    expected[1] = sprite_box_vertical();
    assert_eq!(snapshot(&renderer), expected);
}

#[test]
fn draw_box_of_width_or_height_one_shows_the_corner_written_last() {
    let mut renderer = renderer_30_by_15();
    draw_box(&mut renderer, 3, 3, 1, 1);
    let mut expected = vec![sprite_none(); 450];
    expected[3 * 30 + 3] = sprite_box_top_right();
    assert_eq!(snapshot(&renderer), expected);

    let mut renderer = renderer_30_by_15();
    draw_box(&mut renderer, 3, 3, 1, 4);
    let mut expected = vec![sprite_none(); 450];
    expected[3 * 30 + 3] = sprite_box_bottom_right();
    expected[4 * 30 + 3] = sprite_box_vertical();
    expected[5 * 30 + 3] = sprite_box_vertical();
    expected[6 * 30 + 3] = sprite_box_top_right();
    assert_eq!(snapshot(&renderer), expected);

    let mut renderer = renderer_30_by_15();
    draw_box(&mut renderer, 3, 3, 4, 1);
    let mut expected = vec![sprite_none(); 450];
    expected[3 * 30 + 3] = sprite_box_top_left();
    expected[3 * 30 + 4] = sprite_box_horizontal();
    expected[3 * 30 + 5] = sprite_box_horizontal();
    expected[3 * 30 + 6] = sprite_box_top_right();
    assert_eq!(snapshot(&renderer), expected);
}

#[test]
fn draw_box_of_width_zero_puts_its_right_side_left_of_its_left_side() {
    let mut renderer = renderer_30_by_15();
    draw_box(&mut renderer, 3, 3, 0, 3);
    let mut expected = vec![sprite_none(); 450];
    expected[3 * 30 + 3] = sprite_box_bottom_left();
    expected[3 * 30 + 2] = sprite_box_bottom_right();
    expected[5 * 30 + 3] = sprite_box_top_left();
    expected[5 * 30 + 2] = sprite_box_top_right();
    expected[4 * 30 + 3] = sprite_box_vertical();
    expected[4 * 30 + 2] = sprite_box_vertical();
    assert_eq!(snapshot(&renderer), expected);
}

#[test]
fn draw_box_over_the_same_box_does_not_mark_dirty() {
    let mut renderer = renderer_30_by_15();
    draw_box(&mut renderer, 0, 0, 29, 14);
    assert!(renderer.needs_rebuild());
    render(&mut renderer);
    draw_box(&mut renderer, 0, 0, 29, 14);
    assert!(!renderer.needs_rebuild());
}

#[test]
fn draw_box_whose_corners_share_a_cell_marks_dirty_though_the_cell_ends_as_it_was() {
    let mut renderer = renderer_30_by_15();
    draw_cell(&mut renderer, 3, 3, sprite_box_top_right());
    render(&mut renderer);
    let before = snapshot(&renderer);
    draw_box(&mut renderer, 3, 3, 1, 1);
    assert_eq!(snapshot(&renderer), before);
    assert!(renderer.needs_rebuild());
}
