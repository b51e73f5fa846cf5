//! Properties of the desktop as a whole.
use vstd::prelude::*;
use crate::input::{
    apply_hit, command_of, grab_fits, key_step, mouse_down_step, mouse_move_step, mouse_up_step,
    scan, taskbar_windows, window_hit, Hit,
};
use crate::raster::{
    cursor_color, glyph_on, lemma_index_of_pixel, lemma_paint_all_concat, lemma_paint_all_len,
    lemma_pixel_fits, on_screen, paint, paint_all, pixel_index, rect, shape_color, text, Rgb, Shape,
    HEIGHT, VRAM_SIZE, WIDTH,
};
use crate::scene::{
    content_shapes, desktop_shapes, frame_shapes, lines_fitting, log_shapes, min, scene, scene_shapes,
    teal, terminal_black, terminal_shapes, white, window_shapes, windows_shapes, without_vram,
};
use crate::state::{kernel_inv, KernelView, CMD_MAX};
use crate::text::{accepted_char, has_prefix, upper};

verus! {

/// Typing an accepted character on a command line that has room, then
/// pressing Backspace, gives back the desktop as it was.
pub proof fn law_backspace_undoes_typing(s: KernelView, c: char)
    requires
        kernel_inv(s),
        s.windows[0].is_open,
        accepted_char(c),
        s.cmd_buffer.len() < CMD_MAX,
    ensures
        key_step(key_step(s, seq![c]), "Backspace"@) == s,
{
    reveal_strlit("Enter");
    reveal_strlit("Backspace");
    assert("Enter"@.len() == 5);
    assert("Backspace"@.len() == 9);
    assert(seq![c].len() == 1);
    assert(seq![c] != "Enter"@);
    assert(seq![c] != "Backspace"@);
    let s1 = key_step(s, seq![c]);
    assert(s1.cmd_buffer == s.cmd_buffer.push(c));
    assert(s1.cmd_buffer.drop_last() =~= s.cmd_buffer);
    assert(key_step(s1, "Backspace"@) =~= s);
}

/// While the terminal is closed, keys change nothing.
pub proof fn law_closed_terminal_ignores_keys(s: KernelView, key: Seq<char>)
    requires
        !s.windows[0].is_open,
    ensures
        key_step(s, key) == s,
{
}

/// Enter leaves an empty command line behind, whatever the command.
pub proof fn law_enter_empties_command_line(s: KernelView)
    requires
        s.windows[0].is_open,
    ensures
        key_step(s, "Enter"@).cmd_buffer == Seq::<char>::empty(),
{
}

/// A key keeps every property of a desktop state: in particular the command
/// line stays within `CMD_MAX` accepted characters.
pub proof fn law_keys_keep_invariant(s: KernelView, key: Seq<char>)
    requires
        kernel_inv(s),
    ensures
        kernel_inv(key_step(s, key)),
{
    reveal_strlit("Enter");
    reveal_strlit("Backspace");
    let r = key_step(s, key);
    if s.windows[0].is_open && key != "Enter"@ && key != "Backspace"@ && key.len() == 1
        && accepted_char(key[0]) && s.cmd_buffer.len() < CMD_MAX {
        assert forall|i: int| 0 <= i < r.cmd_buffer.len() implies accepted_char(#[trigger] r.cmd_buffer[i]) by {
            if i < s.cmd_buffer.len() {
                assert(r.cmd_buffer[i] == s.cmd_buffer[i]);
            }
        }
    } else if s.windows[0].is_open && key != "Enter"@ && key == "Backspace"@ && s.cmd_buffer.len() > 0 {
        assert forall|i: int| 0 <= i < r.cmd_buffer.len() implies accepted_char(#[trigger] r.cmd_buffer[i]) by {
            assert(r.cmd_buffer[i] == s.cmd_buffer[i]);
        }
    }
}

/// Once the mouse button is up, moving the pointer neither moves nor
/// resizes a window and paints nothing.
pub proof fn law_release_stops_dragging(s: KernelView, mx: i32, my: i32)
    requires
        kernel_inv(s),
    ensures
        grab_fits(mouse_up_step(s), mx, my),
        mouse_move_step(mouse_up_step(s), mx, my).windows == s.windows,
        mouse_move_step(mouse_up_step(s), mx, my).paint_pixels == s.paint_pixels,
{
}

/// Resizing never makes a window smaller than 180 by 120.
pub proof fn law_resize_keeps_minimum_size(s: KernelView, mx: i32, my: i32, id: u8)
    requires
        kernel_inv(s),
        s.active_resize_id == Some(id),
        s.active_drag_id is None,
        grab_fits(s, mx, my),
    ensures
        mouse_move_step(s, mx, my).windows[id - 1].width >= 180,
        mouse_move_step(s, mx, my).windows[id - 1].height >= 120,
{
}

/// Filling the whole screen forgets what the frame buffer held.
proof fn lemma_full_screen_forgets(v1: Seq<u8>, v2: Seq<u8>, c: Rgb)
    requires
        v1.len() == VRAM_SIZE,
        v2.len() == VRAM_SIZE,
    ensures
        paint(v1, rect(0, 0, WIDTH as int, HEIGHT as int, c)) == paint(v2, rect(0, 0, WIDTH as int, HEIGHT as int, c)),
{
    assert forall|i: int| 0 <= i < VRAM_SIZE implies paint(v1, rect(0, 0, WIDTH as int, HEIGHT as int, c))[i]
        == paint(v2, rect(0, 0, WIDTH as int, HEIGHT as int, c))[i] by {
        crate::raster::lemma_pixel_of_index(i);
    }
    assert(paint(v1, rect(0, 0, WIDTH as int, HEIGHT as int, c)) =~= paint(v2, rect(0, 0, WIDTH as int, HEIGHT as int, c)));
}

/// A redraw does not depend on what the frame buffer held before: two
/// states that differ only in their frame buffers draw the same frame.
pub proof fn law_render_ignores_previous_frame(s1: KernelView, s2: KernelView)
    requires
        s1.vram.len() == VRAM_SIZE,
        s2.vram.len() == VRAM_SIZE,
        without_vram(s1) == without_vram(s2),
    ensures
        scene(s1) == scene(s2),
{
    lemma_full_screen_forgets(s1.vram, s2.vram, teal());
    assert(s1.windows == without_vram(s1).windows);
    assert(s2.windows == without_vram(s2).windows);
    assert(s1.mouse_x == without_vram(s1).mouse_x);
    assert(s2.mouse_x == without_vram(s2).mouse_x);
    assert(s1.mouse_y == without_vram(s1).mouse_y);
    assert(s2.mouse_y == without_vram(s2).mouse_y);
    assert(scene_shapes(s1) == scene_shapes(s2));
}

/// Every pixel of the screen part of the frame buffer is opaque: its alpha
/// byte is 255.
pub open spec fn opaque(v: Seq<u8>) -> bool {
    forall|i: int| 0 <= i < VRAM_SIZE && i % 4 == 3 ==> #[trigger] v[i] == 255
}

proof fn lemma_paint_keeps_opaque(v: Seq<u8>, s: Shape)
    requires
        v.len() == VRAM_SIZE,
        opaque(v),
    ensures
        opaque(paint(v, s)),
{
}

proof fn lemma_paint_all_keeps_opaque(v: Seq<u8>, ops: Seq<Shape>)
    requires
        v.len() == VRAM_SIZE,
        opaque(v),
    ensures
        opaque(paint_all(v, ops)),
        paint_all(v, ops).len() == VRAM_SIZE,
    decreases ops.len(),
{
    if ops.len() > 0 {
        lemma_paint_all_keeps_opaque(v, ops.drop_last());
        lemma_paint_keeps_opaque(paint_all(v, ops.drop_last()), ops.last());
    }
}

/// Every pixel of a drawn frame is opaque: its alpha byte is 255.
pub proof fn law_frame_is_opaque(s: KernelView)
    requires
        s.vram.len() == VRAM_SIZE,
    ensures
        opaque(scene(s)),
{
    let cleared = paint(s.vram, rect(0, 0, WIDTH as int, HEIGHT as int, teal()));
    assert forall|i: int| 0 <= i < VRAM_SIZE && i % 4 == 3 implies #[trigger] cleared[i] == 255 by {
        crate::raster::lemma_pixel_of_index(i);
    }
    lemma_paint_all_keeps_opaque(cleared, scene_shapes(s));
}

/// The desktop as a press at `(mx, my)` finds it: the button is held and a
/// task-bar button under the pointer has opened its window.
pub open spec fn pressed(s: KernelView, mx: i32, my: i32) -> KernelView {
    KernelView { is_mouse_down: true, windows: taskbar_windows(s.windows, mx as int, my as int), ..s }
}

/// Whatever a press hits is the hit of one of the windows scanned.
proof fn lemma_scan_hits_some_window(s: KernelView, mx: int, my: int, n: int)
    ensures
        scan(s, mx, my, n) matches Some(h) ==> exists|k: int| 0 <= k < n && window_hit(s, k, mx, my) == Some(h),
    decreases n,
{
    if n > 0 {
        lemma_scan_hits_some_window(s, mx, my, n - 1);
        if window_hit(s, n - 1, mx, my) is Some {
            assert(window_hit(s, n - 1, mx, my) == scan(s, mx, my, n));
        }
    }
}

/// A scan takes the hit of the topmost window that has one.
proof fn lemma_scan_takes_topmost(s: KernelView, mx: int, my: int, n: int, j: int)
    requires
        0 <= j < n,
        window_hit(s, j, mx, my) is Some,
        forall|k: int| j < k < n ==> window_hit(s, k, mx, my) is None,
    ensures
        scan(s, mx, my, n) == window_hit(s, j, mx, my),
    decreases n,
{
    if n - 1 > j {
        assert(window_hit(s, n - 1, mx, my) is None);
        lemma_scan_takes_topmost(s, mx, my, n - 1, j);
    }
}

/// A press goes to the topmost window that takes it: when window `j` takes a
/// press and no window drawn above it (a higher index) does, the press does
/// what window `j`'s hit does, and the windows drawn below it are left as
/// they were.
pub proof fn law_topmost_window_takes_press(s: KernelView, mx: i32, my: i32, j: int)
    requires
        kernel_inv(s),
        0 <= j < 3,
        window_hit(pressed(s, mx, my), j, mx as int, my as int) is Some,
        forall|k: int| j < k < 3 ==> window_hit(pressed(s, mx, my), k, mx as int, my as int) is None,
    ensures
        mouse_down_step(s, mx, my) == apply_hit(
            pressed(s, mx, my),
            window_hit(pressed(s, mx, my), j, mx as int, my as int)->0,
        ),
        forall|i: int| 0 <= i < j ==> #[trigger] mouse_down_step(s, mx, my).windows[i] == pressed(s, mx, my).windows[i],
{
    let s1 = pressed(s, mx, my);
    lemma_scan_takes_topmost(s1, mx as int, my as int, 3, j);
}

/// Whether `(mx, my)` lies on the close button of window `w`.
pub open spec fn on_close_button(w: crate::state::WindowView, mx: int, my: int) -> bool {
    w.x + w.width - 24 <= mx <= w.x + w.width - 8 && w.y + 6 <= my <= w.y + 22
}

/// A press on the close button of an open window that no window above it
/// takes closes that window and only that one, and grabs nothing.
pub proof fn law_close_button_closes_its_window(s: KernelView, mx: i32, my: i32, j: int)
    requires
        kernel_inv(s),
        0 <= j < 3,
        pressed(s, mx, my).windows[j].is_open,
        on_close_button(s.windows[j], mx as int, my as int),
        forall|k: int| j < k < 3 ==> window_hit(pressed(s, mx, my), k, mx as int, my as int) is None,
    ensures
        !mouse_down_step(s, mx, my).windows[j].is_open,
        forall|i: int| 0 <= i < 3 && i != j ==> #[trigger] mouse_down_step(s, mx, my).windows[i]
            == pressed(s, mx, my).windows[i],
        mouse_down_step(s, mx, my).active_drag_id == s.active_drag_id,
        mouse_down_step(s, mx, my).active_resize_id == s.active_resize_id,
{
    law_topmost_window_takes_press(s, mx, my, j);
}

/// A press on the title bar of an open window (off its close button and
/// grip) that no window above it takes grabs that window by its title bar,
/// remembering where in the window the pointer is.
pub proof fn law_title_bar_grabs_its_window(s: KernelView, mx: i32, my: i32, j: int)
    requires
        kernel_inv(s),
        0 <= j < 3,
        pressed(s, mx, my).windows[j].is_open,
        s.windows[j].x <= mx <= s.windows[j].x + s.windows[j].width,
        s.windows[j].y <= my <= s.windows[j].y + 30,
        !on_close_button(s.windows[j], mx as int, my as int),
        !(s.windows[j].x + s.windows[j].width - 16 <= mx <= s.windows[j].x + s.windows[j].width
            && s.windows[j].y + s.windows[j].height - 16 <= my <= s.windows[j].y + s.windows[j].height),
        forall|k: int| j < k < 3 ==> window_hit(pressed(s, mx, my), k, mx as int, my as int) is None,
    ensures
        mouse_down_step(s, mx, my).active_drag_id == Some((j + 1) as u8),
        mouse_down_step(s, mx, my).drag_offset_x == mx - s.windows[j].x,
        mouse_down_step(s, mx, my).drag_offset_y == my - s.windows[j].y,
        mouse_down_step(s, mx, my).windows == pressed(s, mx, my).windows,
{
    law_topmost_window_takes_press(s, mx, my, j);
}

/// A window held by its title bar follows the pointer: it moves to the
/// pointer less the grab offset.
pub proof fn law_dragged_window_follows_pointer(s: KernelView, mx: i32, my: i32, id: u8)
    requires
        kernel_inv(s),
        s.active_drag_id == Some(id),
        grab_fits(s, mx, my),
    ensures
        mouse_move_step(s, mx, my).windows[id - 1].x == mx - s.drag_offset_x,
        mouse_move_step(s, mx, my).windows[id - 1].y == my - s.drag_offset_y,
        mouse_move_step(s, mx, my).mouse_x == mx,
        mouse_move_step(s, mx, my).mouse_y == my,
{
}

/// A task-bar button only opens its window: after a press on the button of
/// window `i` (TERM 15..85, DRAW 100..170, FILE 185..255, between rows 694
/// and 716), window `i` is open, unless the press also lay on that window's
/// own close button. In particular an open window is never closed by its
/// button.
pub proof fn law_taskbar_button_opens_its_window(s: KernelView, mx: i32, my: i32, i: int)
    requires
        kernel_inv(s),
        694 <= my <= 716,
        (i == 0 && 15 <= mx <= 85) || (i == 1 && 100 <= mx <= 170) || (i == 2 && 185 <= mx <= 255),
        !on_close_button(s.windows[i], mx as int, my as int),
    ensures
        mouse_down_step(s, mx, my).windows[i].is_open,
{
    let s1 = pressed(s, mx, my);
    assert(s1.windows[i].is_open);
    lemma_scan_hits_some_window(s1, mx as int, my as int, 3);
    match scan(s1, mx as int, my as int, 3) {
        Some(h) => {
            let k = choose|k: int| 0 <= k < 3 && window_hit(s1, k, mx as int, my as int) == Some(h);
            match h {
                Hit::Close(c) => {
                    assert(c == k);
                    if c == i {
                        assert(on_close_button(s.windows[i], mx as int, my as int));
                    }
                },
                _ => {},
            }
        },
        None => {},
    }
}

/// `cat NAME` prints the first file called `NAME` in upper case, whatever
/// kind of file it is: the echo of the command and the file's content are
/// added to the terminal.
pub proof fn law_cat_prints_the_named_file(s: KernelView, i: int)
    requires
        kernel_inv(s),
        s.windows[0].is_open,
        has_prefix(command_of(s.cmd_buffer), "cat "@),
        0 <= i < s.files.len(),
        s.files[i].name == upper(command_of(s.cmd_buffer).skip(4)),
        forall|j: int| 0 <= j < i ==> s.files[j].name != upper(command_of(s.cmd_buffer).skip(4)),
    ensures
        key_step(s, "Enter"@).terminal_logs == s.terminal_logs.push(seq!['>'] + command_of(s.cmd_buffer)).push(
            s.files[i].content,
        ),
{
    let fname = upper(command_of(s.cmd_buffer).skip(4));
    assert(crate::input::first_named(s.files, fname, i));
    let k = choose|k: int| crate::input::first_named(s.files, fname, k);
    assert(k == i) by {
        if k < i {
            assert(s.files[k].name != fname);
        } else if k > i {
            assert(s.files[i].name != fname);
        }
    }
}

/// `cat NAME` reports a missing file only when no file is called `NAME` in
/// upper case.
pub proof fn law_cat_reports_only_missing_files(s: KernelView)
    requires
        kernel_inv(s),
        s.windows[0].is_open,
        has_prefix(command_of(s.cmd_buffer), "cat "@),
        forall|j: int| 0 <= j < s.files.len() ==> s.files[j].name != upper(command_of(s.cmd_buffer).skip(4)),
    ensures
        key_step(s, "Enter"@).terminal_logs == s.terminal_logs.push(seq!['>'] + command_of(s.cmd_buffer)).push(
            "FILE NOT FOUND"@,
        ),
{
}

/// While a window is held by its title bar or its grip, moving the pointer
/// paints nothing, whether the button is down or not.
pub proof fn law_held_window_never_paints(s: KernelView, mx: i32, my: i32)
    requires
        kernel_inv(s),
        s.active_drag_id is Some || s.active_resize_id is Some,
    ensures
        mouse_move_step(s, mx, my).paint_pixels == s.paint_pixels,
{
}

/// The four bytes of the pixel at `(x, y)` of a frame buffer.
pub open spec fn pixel_bytes(v: Seq<u8>, x: int, y: int) -> Seq<u8> {
    v.subrange(pixel_index(x, y), pixel_index(x, y) + 4)
}

/// The four bytes of a pixel painted with `c`.
pub open spec fn color_bytes(c: Rgb) -> Seq<u8> {
    seq![c.r, c.g, c.b, 255u8]
}

/// The pixel at `(x, y)` after drawing one shape.
proof fn lemma_paint_at(v: Seq<u8>, sh: Shape, x: int, y: int)
    requires
        on_screen(x, y),
        v.len() >= VRAM_SIZE,
    ensures
        pixel_bytes(paint(v, sh), x, y) == match shape_color(sh, x, y) {
            Some(c) => color_bytes(c),
            None => pixel_bytes(v, x, y),
        },
{
    lemma_pixel_fits(x, y);
    let i0 = pixel_index(x, y);
    assert forall|ch: int| 0 <= ch < 4 implies #[trigger] paint(v, sh)[i0 + ch] == (match shape_color(sh, x, y) {
        Some(c) => color_bytes(c),
        None => pixel_bytes(v, x, y),
    })[ch] by {
        lemma_index_of_pixel(x, y, i0 + ch);
    }
    assert(pixel_bytes(paint(v, sh), x, y) =~= match shape_color(sh, x, y) {
        Some(c) => color_bytes(c),
        None => pixel_bytes(v, x, y),
    });
}

/// Shapes that paint nothing at `(x, y)` leave that pixel as it was.
proof fn lemma_paint_all_untouched(v: Seq<u8>, ops: Seq<Shape>, x: int, y: int)
    requires
        on_screen(x, y),
        v.len() >= VRAM_SIZE,
        forall|k: int| 0 <= k < ops.len() ==> #[trigger] shape_color(ops[k], x, y) is None,
    ensures
        pixel_bytes(paint_all(v, ops), x, y) == pixel_bytes(v, x, y),
    decreases ops.len(),
{
    if ops.len() > 0 {
        let rest = ops.drop_last();
        assert forall|k: int| 0 <= k < rest.len() implies #[trigger] shape_color(rest[k], x, y) is None by {
            assert(rest[k] == ops[k]);
        }
        assert(shape_color(ops[ops.len() - 1], x, y) is None);
        lemma_paint_all_untouched(v, rest, x, y);
        lemma_paint_all_len(v, rest);
        lemma_paint_at(paint_all(v, rest), ops.last(), x, y);
    }
}

/// The terminal's prompt line shows the command line: with the terminal
/// open, large enough to show its text area, and nothing drawn over it (the
/// other windows closed, the point above the task bar and off the mouse
/// arrow), the cell of the `k`-th character of the command line (nine pixels
/// per character, after the `>` at `(x + 20, y + height - 28)`) is white
/// where the glyph of that character is lit and terminal black elsewhere.
pub proof fn law_prompt_shows_command_line(s: KernelView, k: int, px: int, py: int)
    requires
        kernel_inv(s),
        s.windows[0].is_open,
        !s.windows[1].is_open,
        !s.windows[2].is_open,
        s.windows[0].width - 16 > 20,
        s.windows[0].height - 42 > 40,
        0 <= k < s.cmd_buffer.len(),
        on_screen(px, py),
        py < 688,
        px < s.windows[0].x + s.windows[0].width - 8,
        0 <= px - (s.windows[0].x + 29 + 9 * k) < 9,
        0 <= py - (s.windows[0].y + s.windows[0].height - 28) < 10,
        cursor_color(px - s.mouse_x, py - s.mouse_y) is None,
    ensures
        pixel_bytes(scene(s), px, py) == color_bytes(
            if glyph_on(
                s.cmd_buffer[k],
                px - (s.windows[0].x + 29 + 9 * k),
                py - (s.windows[0].y + s.windows[0].height - 28),
            ) {
                white()
            } else {
                terminal_black()
            },
        ),
{
    let ws = without_vram(s);
    let w = s.windows[0];
    let x = w.x as int;
    let y = w.y as int;
    let wd = w.width as int;
    let h = w.height as int;
    let tx = x + 8;
    let ty = y + 34;
    let tw = wd - 16;
    let th = h - 42;
    assert(ws.windows == s.windows);
    assert(window_shapes(ws.windows[2], ws) =~= Seq::<Shape>::empty());
    assert(window_shapes(ws.windows[1], ws) =~= Seq::<Shape>::empty());
    assert(windows_shapes(ws, 0) =~= Seq::<Shape>::empty());
    assert(windows_shapes(ws, 1) =~= window_shapes(w, ws));
    assert(windows_shapes(ws, 2) =~= window_shapes(w, ws));
    assert(windows_shapes(ws, 3) =~= window_shapes(w, ws));
    let fr = frame_shapes(w);
    let r = seq![rect(tx, ty, tx + tw, ty + th, terminal_black())];
    let m = min(ws.terminal_logs.len() as int, lines_fitting(th));
    let l = log_shapes(ws.terminal_logs, tx + 12, ty + 10, m);
    let p = text(tx + 12, ty + th - 20, seq!['>'] + ws.cmd_buffer, white());
    assert(content_shapes(w, ws) == terminal_shapes(w, ws));
    assert(terminal_shapes(w, ws) == r + l + seq![p]);
    let wsh = window_shapes(w, ws);
    assert(wsh =~= (fr + r + l).push(p));
    let d = desktop_shapes();
    let c = seq![crate::raster::cursor(s.mouse_x as int, s.mouse_y as int)];
    assert(scene_shapes(s) =~= wsh + d + c);

    let cleared = paint(s.vram, rect(0, 0, WIDTH as int, HEIGHT as int, teal()));
    lemma_paint_all_concat(cleared, wsh + d, c);
    lemma_paint_all_concat(cleared, wsh, d);
    lemma_paint_all_len(cleared, wsh);
    lemma_paint_all_len(cleared, wsh + d);
    assert forall|j: int| 0 <= j < c.len() implies #[trigger] shape_color(c[j], px, py) is None by {}
    lemma_paint_all_untouched(paint_all(cleared, wsh + d), c, px, py);
    assert forall|j: int| 0 <= j < d.len() implies #[trigger] shape_color(d[j], px, py) is None by {}
    lemma_paint_all_untouched(paint_all(cleared, wsh), d, px, py);

    let frl = fr + r + l;
    lemma_paint_all_len(cleared, frl);
    assert(paint_all(cleared, wsh) == paint(paint_all(cleared, frl), p)) by {
        crate::raster::lemma_paint_all_push(cleared, frl, p);
    }
    lemma_paint_at(paint_all(cleared, frl), p, px, py);
    let dx = px - (x + 29 + 9 * k);
    let dy = py - (y + h - 28);
    let tdx = px - (tx + 12);
    assert(tdx == 9 * (k + 1) + dx);
    assert(tdx / 9 == k + 1);
    assert(tdx % 9 == dx);
    assert((seq!['>'] + ws.cmd_buffer)[k + 1] == s.cmd_buffer[k]);
    if !glyph_on(s.cmd_buffer[k], dx, dy) {
        assert(shape_color(p, px, py) is None);
        assert forall|j: int| 0 <= j < l.len() implies #[trigger] shape_color(l[j], px, py) is None by {
            assert(16 * j + 49 < th);
        }
        lemma_paint_all_concat(cleared, fr + r, l);
        lemma_paint_all_len(cleared, fr + r);
        lemma_paint_all_untouched(paint_all(cleared, fr + r), l, px, py);
        crate::raster::lemma_paint_all_push(cleared, fr, r[0]);
        assert(fr.push(r[0]) =~= fr + r);
        lemma_paint_all_len(cleared, fr);
        lemma_paint_at(paint_all(cleared, fr), r[0], px, py);
    }
}

} // verus!
