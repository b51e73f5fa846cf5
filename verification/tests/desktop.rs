use wasmos::font::get_font_pattern;
use wasmos::raster::{
    clear_vram, draw_char_scaled, draw_string_scaled, fill_rect, set_pixel, Rgb, VRAM_SIZE, WIDTH,
};
use wasmos::scene::title_color;
use wasmos::state::OSKernel;

fn chars(s: &str) -> Vec<char> {
    s.chars().collect()
}

fn pixel(vram: &Vec<u8>, x: usize, y: usize) -> [u8; 4] {
    let i = (y * WIDTH + x) * 4;
    [vram[i], vram[i + 1], vram[i + 2], vram[i + 3]]
}

fn booted() -> OSKernel {
    let mut k = OSKernel::new();
    k.init_kernel();
    k
}

fn type_line(k: &mut OSKernel, line: &str) {
    for c in line.chars() {
        k.on_os_keypress(&c.to_string());
    }
    k.on_os_keypress("Enter");
}

fn last_logs(k: &OSKernel, n: usize) -> Vec<String> {
    let logs = &k.terminal_logs;
    logs[logs.len() - n..].iter().map(|l| l.iter().collect()).collect()
}

const RED: Rgb = Rgb { r: 200, g: 10, b: 20 };

#[test]
fn font_pattern_upper_cases_letters() {
    assert_eq!(get_font_pattern('a'), get_font_pattern('A'));
    assert_eq!(get_font_pattern('A'), [1, 1, 1, 1, 0, 1, 1, 1, 1, 1, 0, 1, 1, 0, 1]);
    assert_eq!(get_font_pattern('7'), get_font_pattern('0'));
    assert_eq!(get_font_pattern('0'), [1, 1, 1, 1, 0, 1, 1, 0, 1, 1, 0, 1, 1, 1, 1]);
    assert_eq!(get_font_pattern('!'), [0; 15]);
    assert_eq!(get_font_pattern(' '), [0; 15]);
}

#[test]
fn set_pixel_writes_one_opaque_pixel() {
    let mut v = vec![0u8; VRAM_SIZE];
    set_pixel(&mut v, 3, 2, RED);
    assert_eq!(pixel(&v, 3, 2), [200, 10, 20, 255]);
    assert_eq!(pixel(&v, 2, 2), [0, 0, 0, 0]);
    assert_eq!(pixel(&v, 4, 2), [0, 0, 0, 0]);
    assert_eq!(v.iter().filter(|b| **b != 0).count(), 4);
}

#[test]
fn set_pixel_ignores_positions_off_screen() {
    let mut v = vec![7u8; VRAM_SIZE];
    set_pixel(&mut v, -1, 0, RED);
    set_pixel(&mut v, 1280, 5, RED);
    set_pixel(&mut v, 5, 720, RED);
    set_pixel(&mut v, 0, -3, RED);
    assert!(v.iter().all(|b| *b == 7));
}

#[test]
fn fill_rect_is_clipped_to_the_screen() {
    let mut v = vec![0u8; VRAM_SIZE];
    fill_rect(&mut v, -5, 715, 2, 800, RED);
    assert_eq!(pixel(&v, 0, 719), [200, 10, 20, 255]);
    assert_eq!(pixel(&v, 1, 715), [200, 10, 20, 255]);
    assert_eq!(pixel(&v, 2, 715), [0, 0, 0, 0]);
    assert_eq!(pixel(&v, 1, 714), [0, 0, 0, 0]);
    assert_eq!(v.iter().filter(|b| **b != 0).count(), 2 * 5 * 4);
}

#[test]
fn clear_vram_paints_every_pixel() {
    let mut v = vec![0u8; VRAM_SIZE];
    clear_vram(&mut v, RED);
    for chunk in v.chunks(4) {
        assert_eq!(chunk, &[200, 10, 20, 255]);
    }
}

#[test]
fn draw_char_scales_cells_by_two() {
    let mut v = vec![0u8; VRAM_SIZE];
    // 'L': the left column lit on every row, the bottom row lit.
    draw_char_scaled(&mut v, 10, 20, 'l', RED);
    for dy in 0..10 {
        assert_eq!(pixel(&v, 10, 20 + dy)[3], 255);
        assert_eq!(pixel(&v, 11, 20 + dy)[3], 255);
        assert_eq!(pixel(&v, 12, 20 + dy)[3], if dy >= 8 { 255 } else { 0 });
    }
    assert_eq!(pixel(&v, 15, 29), [200, 10, 20, 255]);
    assert_eq!(pixel(&v, 16, 29), [0, 0, 0, 0]);
    assert_eq!(v.iter().filter(|b| **b != 0).count(), 7 * 4 * 4);
}

#[test]
fn draw_string_places_characters_nine_pixels_apart() {
    let mut v = vec![0u8; VRAM_SIZE];
    draw_string_scaled(&mut v, 100, 50, &chars("I.I"), RED);
    // 'I' has its top row lit; '.' only its bottom middle cell.
    assert_eq!(pixel(&v, 100, 50), [200, 10, 20, 255]);
    assert_eq!(pixel(&v, 109, 50), [0, 0, 0, 0]);
    assert_eq!(pixel(&v, 111, 58), [200, 10, 20, 255]);
    assert_eq!(pixel(&v, 118, 50), [200, 10, 20, 255]);
    let mut w = vec![0u8; VRAM_SIZE];
    draw_char_scaled(&mut w, 100, 50, 'I', RED);
    draw_char_scaled(&mut w, 109, 50, '.', RED);
    draw_char_scaled(&mut w, 118, 50, 'I', RED);
    assert!(v == w);
}

#[test]
fn draw_string_past_the_right_edge_draws_nothing_more() {
    let mut v = vec![0u8; VRAM_SIZE];
    draw_string_scaled(&mut v, 1275, 0, &chars("EEEE"), RED);
    assert_eq!(pixel(&v, 1279, 0), [200, 10, 20, 255]);
    assert_eq!(v.iter().filter(|b| **b != 0).count(), 38 * 4);
}

#[test]
fn title_gradient_matches_float_interpolation() {
    for k in 0..25i64 {
        let t = k as f32 / 25.0;
        let r = (0x00 as f32 * (1.0 - t) + 0x0a as f32 * t) as u8;
        let g = (0x00 as f32 * (1.0 - t) + 0x5a as f32 * t) as u8;
        let b = (0x80 as f32 * (1.0 - t) + 0xff as f32 * t) as u8;
        assert_eq!(title_color(k), Rgb { r, g, b });
    }
    assert_eq!(title_color(0), Rgb { r: 0, g: 0, b: 128 });
    assert_eq!(title_color(24), Rgb { r: 9, g: 86, b: 249 });
}

#[test]
fn new_kernel_starts_with_three_open_windows_and_files() {
    let k = OSKernel::new();
    assert_eq!(k.windows.len(), 3);
    assert_eq!(k.windows[0].title, chars("WasmOS Terminal v1.2"));
    assert_eq!((k.windows[1].x, k.windows[1].y, k.windows[1].width, k.windows[1].height), (510, 80, 420, 350));
    assert!(k.windows.iter().all(|w| w.is_open));
    assert_eq!(k.files.len(), 3);
    assert_eq!(k.files[2].name, chars("ICON.BMP"));
    assert!(k.files[2].is_image);
    assert_eq!(k.paint_pixels.len(), 400 * 400);
    assert!(k.paint_pixels.iter().all(|p| *p == 255));
    assert_eq!(k.vram.len(), VRAM_SIZE);
    assert!(k.cmd_buffer.is_empty());
    assert_eq!(k.terminal_logs.len(), 3);
}

#[test]
fn first_frame_shows_desktop_windows_and_task_bar() {
    let k = booted();
    let v = &k.vram;
    assert_eq!(pixel(v, 1000, 300), [0x1a, 0x5c, 0x5a, 255]);
    assert_eq!(pixel(v, 0, 0), [0x1a, 0x5c, 0x5a, 255]);
    assert_eq!(pixel(v, 0, 1), [0, 0, 0, 255]);
    assert_eq!(pixel(v, 600, 688), [255, 255, 255, 255]);
    assert_eq!(pixel(v, 600, 689), [0x80, 0x80, 0x80, 255]);
    assert_eq!(pixel(v, 600, 700), [0xd4, 0xd0, 0xc8, 255]);
    assert_eq!(pixel(v, 20, 695), [0x00, 0x00, 0x80, 255]);
    assert_eq!(pixel(v, 60, 80), [255, 255, 255, 255]);
    assert_eq!(pixel(v, 479, 80), [0x40, 0x40, 0x40, 255]);
    assert_eq!(pixel(v, 300, 83), [0, 0, 128, 255]);
    assert_eq!(pixel(v, 300, 107), [9, 86, 249, 255]);
    assert_eq!(pixel(v, 456, 86), [0xe0, 0x40, 0x40, 255]);
    assert_eq!(pixel(v, 70, 116), [5, 5, 5, 255]);
    assert_eq!(pixel(v, 520, 114), [255, 255, 255, 255]);
    assert_eq!(pixel(v, 725, 114), [0xaa, 0xaa, 0xaa, 255]);
    assert_eq!(pixel(v, 215, 450), [255, 255, 255, 255]);
    assert_eq!(pixel(v, 220, 455), [0xff, 0xaa, 0x00, 255]);
}

#[test]
fn every_pixel_of_a_frame_is_opaque() {
    let k = booted();
    assert!(k.vram.chunks(4).all(|p| p[3] == 255));
}

#[test]
fn redraw_does_not_depend_on_the_previous_frame() {
    let mut a = OSKernel::new();
    let mut b = OSKernel::new();
    for (i, byte) in b.vram.iter_mut().enumerate() {
        *byte = (i % 251) as u8;
    }
    a.init_kernel();
    b.init_kernel();
    assert!(a.vram == b.vram);
}

#[test]
fn typed_characters_go_to_the_command_line() {
    let mut k = booted();
    for key in ["c", "A", "t", " ", "9", "."] {
        k.on_os_keypress(key);
    }
    assert_eq!(k.cmd_buffer, chars("cAt 9."));
}

#[test]
fn keys_outside_the_alphabet_are_ignored() {
    let mut k = booted();
    for key in ["!", "-", "é", "Shift", "ArrowLeft", "", "ab"] {
        k.on_os_keypress(key);
    }
    assert!(k.cmd_buffer.is_empty());
}

#[test]
fn command_line_holds_at_most_forty_characters() {
    let mut k = booted();
    for _ in 0..45 {
        k.on_os_keypress("x");
    }
    assert_eq!(k.cmd_buffer.len(), 40);
}

#[test]
fn backspace_removes_the_last_character() {
    let mut k = booted();
    k.on_os_keypress("a");
    k.on_os_keypress("b");
    k.on_os_keypress("Backspace");
    assert_eq!(k.cmd_buffer, chars("a"));
    k.on_os_keypress("Backspace");
    k.on_os_keypress("Backspace");
    assert!(k.cmd_buffer.is_empty());
}

#[test]
fn backspace_after_typing_gives_back_the_same_desktop() {
    let mut k = booted();
    type_line(&mut k, "help");
    k.on_os_keypress("q");
    let before_cmd = k.cmd_buffer.clone();
    let before_logs = k.terminal_logs.clone();
    let before_vram = k.vram.clone();
    k.on_os_keypress("z");
    k.on_os_keypress("Backspace");
    assert_eq!(k.cmd_buffer, before_cmd);
    assert_eq!(k.terminal_logs, before_logs);
    assert!(k.vram == before_vram);
}

#[test]
fn help_lists_the_commands() {
    let mut k = booted();
    type_line(&mut k, "  HeLp ");
    assert_eq!(
        last_logs(&k, 4),
        vec![">help", "CLEAR : CLEAR SCREEN", "PAINT : RESET CANVAS", "CAT [FILE] : READ FILE"]
    );
    assert!(k.cmd_buffer.is_empty());
}

#[test]
fn cat_prints_a_file_by_its_upper_case_name() {
    let mut k = booted();
    type_line(&mut k, "cat readme.txt");
    assert_eq!(last_logs(&k, 2), vec![">cat readme.txt", "WELCOME TO WASMOS! THIS IS A TEXT FILE."]);
    type_line(&mut k, "CAT System.Txt");
    assert_eq!(last_logs(&k, 2), vec![">cat system.txt", "KERNEL V1.2 MEMORY SHARED VRAM ACTIVE."]);
}

#[test]
fn cat_of_a_missing_file_says_so() {
    let mut k = booted();
    type_line(&mut k, "cat nothing");
    assert_eq!(last_logs(&k, 2), vec![">cat nothing", "FILE NOT FOUND"]);
    type_line(&mut k, "cat  readme.txt");
    assert_eq!(last_logs(&k, 2), vec![">cat  readme.txt", "FILE NOT FOUND"]);
}

#[test]
fn cat_without_a_name_is_no_command() {
    let mut k = booted();
    type_line(&mut k, "cat ");
    assert_eq!(last_logs(&k, 2), vec![">cat", "COMMAND NOT FOUND"]);
}

#[test]
fn clear_empties_the_terminal() {
    let mut k = booted();
    type_line(&mut k, "clear");
    assert!(k.terminal_logs.is_empty());
    assert!(k.cmd_buffer.is_empty());
}

#[test]
fn paint_resets_the_canvas() {
    let mut k = booted();
    k.on_mouse_down(530.0 as i32, 124.0 as i32);
    k.on_mouse_up();
    assert_eq!(k.paint_pixels[10 * 400 + 10], 0);
    type_line(&mut k, "paint");
    assert!(k.paint_pixels.iter().all(|p| *p == 255));
    assert_eq!(k.paint_pixels.len(), 400 * 400);
    assert_eq!(last_logs(&k, 2), vec![">paint", "CANVAS BUFFER RESET"]);
}

#[test]
fn unknown_command_is_reported() {
    let mut k = booted();
    type_line(&mut k, "xyz");
    assert_eq!(last_logs(&k, 2), vec![">xyz", "COMMAND NOT FOUND"]);
    type_line(&mut k, "");
    assert_eq!(last_logs(&k, 2), vec![">", "COMMAND NOT FOUND"]);
}

#[test]
fn close_button_closes_a_window_and_keys_are_then_ignored() {
    let mut k = booted();
    k.on_mouse_down(460, 90);
    k.on_mouse_up();
    assert!(!k.windows[0].is_open);
    assert_eq!(pixel(&k.vram, 70, 116), [0x1a, 0x5c, 0x5a, 255]);
    let logs = k.terminal_logs.clone();
    k.on_os_keypress("a");
    k.on_os_keypress("Enter");
    assert!(k.cmd_buffer.is_empty());
    assert_eq!(k.terminal_logs, logs);
}

#[test]
fn task_bar_button_reopens_a_window() {
    let mut k = booted();
    k.on_mouse_down(460, 90);
    k.on_mouse_up();
    assert!(!k.windows[0].is_open);
    k.on_mouse_down(50, 700);
    k.on_mouse_up();
    assert!(k.windows[0].is_open);
    assert_eq!(pixel(&k.vram, 70, 116), [5, 5, 5, 255]);
}

#[test]
fn title_bar_drag_moves_a_window() {
    let mut k = booted();
    k.on_mouse_down(600, 90);
    assert_eq!(k.active_drag_id, Some(2));
    assert_eq!((k.drag_offset_x, k.drag_offset_y), (90, 10));
    assert!(k.on_mouse_move(700, 200));
    assert_eq!((k.windows[1].x, k.windows[1].y), (610, 190));
    k.on_mouse_up();
    assert_eq!(k.active_drag_id, None);
    assert!(k.on_mouse_move(100, 100));
    assert_eq!((k.windows[1].x, k.windows[1].y), (610, 190));
    assert_eq!((k.mouse_x, k.mouse_y), (100, 100));
}

#[test]
fn resize_keeps_the_minimum_size() {
    let mut k = booted();
    k.on_mouse_down(490, 640);
    assert_eq!(k.active_resize_id, Some(3));
    assert_eq!((k.drag_offset_x, k.drag_offset_y), (190, 400));
    assert!(k.on_mouse_move(300, 500));
    assert_eq!((k.windows[2].width, k.windows[2].height), (180, 120));
    assert!(k.on_mouse_move(600, 700));
    assert_eq!((k.windows[2].width, k.windows[2].height), (410, 300));
    k.on_mouse_up();
}

#[test]
fn pressing_and_moving_on_the_canvas_paints_black() {
    let mut k = booted();
    k.on_mouse_down(530, 124);
    assert_eq!(k.paint_pixels[10 * 400 + 10], 0);
    assert!(k.on_mouse_move(540, 130));
    assert_eq!(k.paint_pixels[16 * 400 + 20], 0);
    assert_eq!(pixel(&k.vram, 540, 130), [0, 0, 0, 255]);
    k.on_mouse_up();
    assert!(k.on_mouse_move(545, 135));
    assert_eq!(k.paint_pixels[21 * 400 + 25], 255);
    assert_eq!(k.paint_pixels.iter().filter(|p| **p == 0).count(), 2);
}

#[test]
fn clicking_a_text_file_opens_it_in_the_terminal() {
    let mut k = booted();
    k.on_mouse_down(300, 460);
    k.on_mouse_up();
    assert_eq!(k.selected_file_idx, Some(0));
    assert_eq!(
        last_logs(&k, 2),
        vec!["OPENING FILE: README.TXT", "WELCOME TO WASMOS! THIS IS A TEXT FILE."]
    );
    // The selected row is drawn on a navy bar.
    assert_eq!(pixel(&k.vram, 215, 453), [0, 0, 0x80, 255]);
}

#[test]
fn the_top_margin_of_the_file_list_belongs_to_the_first_row() {
    let mut k = booted();
    k.on_mouse_down(300, 447);
    k.on_mouse_up();
    assert_eq!(k.selected_file_idx, Some(0));
}

#[test]
fn clicking_the_image_file_draws_it_on_the_canvas() {
    let mut k = booted();
    k.on_mouse_down(300, 501);
    k.on_mouse_up();
    assert_eq!(k.selected_file_idx, Some(2));
    assert_eq!(last_logs(&k, 2), vec!["OPENING FILE: ICON.BMP", "BMP DRAWN TO CANVAS"]);
    assert_eq!(k.paint_pixels[40 * 400 + 40], 0);
    assert_eq!(k.paint_pixels[79 * 400 + 79], 0);
    assert_eq!(k.paint_pixels[80 * 400 + 80], 255);
    assert_eq!(k.paint_pixels[39 * 400 + 50], 255);
    assert_eq!(k.paint_pixels.iter().filter(|p| **p == 0).count(), 40 * 40);
}

#[test]
fn clicking_below_the_last_file_selects_nothing() {
    let mut k = booted();
    k.on_mouse_down(300, 600);
    k.on_mouse_up();
    assert_eq!(k.selected_file_idx, None);
    assert_eq!(k.terminal_logs.len(), 3);
}

#[test]
fn moving_a_grabbed_window_out_of_i32_range_is_refused() {
    let mut k = booted();
    k.on_mouse_down(600, 90);
    let x = k.windows[1].x;
    assert!(!k.on_mouse_move(i32::MIN, 90));
    assert_eq!(k.windows[1].x, x);
    assert_eq!((k.mouse_x, k.mouse_y), (0, 0));
    assert!(k.on_mouse_move(i32::MIN + 100, 90));
    assert_eq!(k.windows[1].x, i32::MIN + 10);
}
