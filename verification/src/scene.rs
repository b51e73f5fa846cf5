//! What the desktop draws: windows with their contents, the task bar and
//! the mouse arrow, as lists of shapes, and the functions that draw them.
use vstd::prelude::*;
use crate::raster::{
    Rgb, Shape, rgb, rect, text, grip, cursor, paint, paint_all, lemma_paint_all_push,
    lemma_paint_all_len, lemma_paint_all_concat, fill_rect, draw_string_scaled, draw_grip,
    draw_mouse_cursor_hd, blit_canvas, clear_vram, WIDTH, HEIGHT, VRAM_SIZE,
};
use crate::state::{KernelView, OSKernel, WindowState, WindowView, CANVAS_CELLS};
use crate::text::{concat, chars_of};

verus! {

pub open spec fn white() -> Rgb {
    rgb(255, 255, 255)
}

pub open spec fn black() -> Rgb {
    rgb(0, 0, 0)
}

/// The face of windows and of the task bar.
pub open spec fn face() -> Rgb {
    rgb(0xd4, 0xd0, 0xc8)
}

/// The lower and right edges of a window.
pub open spec fn shadow() -> Rgb {
    rgb(0x40, 0x40, 0x40)
}

pub open spec fn close_red() -> Rgb {
    rgb(0xe0, 0x40, 0x40)
}

pub open spec fn mid_gray() -> Rgb {
    rgb(0x80, 0x80, 0x80)
}

pub open spec fn terminal_black() -> Rgb {
    rgb(0x05, 0x05, 0x05)
}

pub open spec fn terminal_green() -> Rgb {
    rgb(0x33, 0xff, 0x33)
}

pub open spec fn navy() -> Rgb {
    rgb(0x00, 0x00, 0x80)
}

pub open spec fn orange() -> Rgb {
    rgb(0xff, 0xaa, 0x00)
}

pub open spec fn teal() -> Rgb {
    rgb(0x1a, 0x5c, 0x5a)
}

/// Row `k` (of 25) of a title bar: from navy `(0x00, 0x00, 0x80)` towards
/// blue `(0x0a, 0x5a, 0xff)`, each channel `c0 + (c1 - c0) * k / 25` rounded
/// down.
pub open spec fn title_gradient(k: int) -> Rgb {
    rgb((10 * k / 25) as u8, (90 * k / 25) as u8, ((128 * (25 - k) + 255 * k) / 25) as u8)
}

/// The 25 rows of the title bar of a window at `(x, y)`, `w` wide.
pub open spec fn title_bar_shapes(x: int, y: int, w: int) -> Seq<Shape> {
    Seq::new(25, |k: int| rect(x + 4, y + 3 + k, x + w - 4, y + 4 + k, title_gradient(k)))
}

/// The frame of a window: face, bevelled edges, title bar and title, close
/// button and resize grip.
pub open spec fn frame_shapes(w: WindowView) -> Seq<Shape> {
    let x = w.x as int;
    let y = w.y as int;
    let wd = w.width as int;
    let h = w.height as int;
    seq![
        rect(x, y, x + wd, y + h, face()),
        rect(x, y, x + wd, y + 1, white()),
        rect(x, y + h - 1, x + wd, y + h, shadow()),
        rect(x, y, x + 1, y + h, white()),
        rect(x + wd - 1, y, x + wd, y + h, shadow()),
    ] + title_bar_shapes(x, y, wd) + seq![
        text(x + 12, y + 8, w.title, white()),
        rect(x + wd - 24, y + 6, x + wd - 8, y + 22, close_red()),
        text(x + wd - 19, y + 9, seq!['X'], white()),
        grip(x + wd - 12, y + h - 12, mid_gray()),
    ]
}

/// How many terminal lines fit a text area `th` high: line `k` is drawn
/// when its bottom, `10 + 16 k + 14`, is above `th - 25`.
pub open spec fn lines_fitting(th: int) -> int {
    if th > 49 {
        (th - 49 + 15) / 16
    } else {
        0
    }
}

pub open spec fn min(a: int, b: int) -> int {
    if a <= b {
        a
    } else {
        b
    }
}

/// The first `m` lines of `logs`, 16 pixels apart from `(x, y)` down.
pub open spec fn log_shapes(logs: Seq<Seq<char>>, x: int, y: int, m: int) -> Seq<Shape> {
    Seq::new(m as nat, |k: int| text(x, y + 16 * k, logs[k], terminal_green()))
}

/// The terminal inside a window: a black area, as many of the terminal's
/// lines as fit from the top, and the prompt with the command line at the
/// bottom. A window too small for it shows none of it.
pub open spec fn terminal_shapes(w: WindowView, s: KernelView) -> Seq<Shape> {
    let tx = w.x + 8;
    let ty = w.y + 34;
    let tw = w.width - 16;
    let th = w.height - 42;
    if tw > 20 && th > 40 {
        seq![rect(tx, ty, tx + tw, ty + th, terminal_black())] + log_shapes(
            s.terminal_logs,
            tx + 12,
            ty + 10,
            min(s.terminal_logs.len() as int, lines_fitting(th)),
        ) + seq![text(tx + 12, ty + th - 20, seq!['>'] + s.cmd_buffer, white())]
    } else {
        seq![]
    }
}

/// The canvas inside the paint program's window.
pub open spec fn canvas_shapes(w: WindowView, s: KernelView) -> Seq<Shape> {
    let cx = w.x + 10;
    let cy = w.y + 34;
    let cw = w.width - 20;
    let ch = w.height - 45;
    if cw > 10 && ch > 10 {
        seq![
            Shape::Canvas {
                ox: cx,
                oy: cy,
                x0: cx,
                y0: cy,
                x1: cx + cw,
                y1: cy + ch,
                pixels: s.paint_pixels,
                pw: s.paint_width as int,
                ph: s.paint_height as int,
            },
        ]
    } else {
        seq![]
    }
}

/// How many file rows fit a list `fh` high: row `k` is drawn when its
/// bottom, `8 + 24 k + 24`, is not below `fh`.
pub open spec fn rows_fitting(fh: int) -> int {
    if fh >= 32 {
        (fh - 32) / 24 + 1
    } else {
        0
    }
}

/// The mark in front of a file name.
pub open spec fn file_icon(is_image: bool) -> Seq<char> {
    if is_image {
        "[I]"@
    } else {
        "[T]"@
    }
}

/// Row `k` of the file list: a navy bar if the file is selected, the mark
/// and the name (white on the bar, black elsewhere).
pub open spec fn file_row_shapes(s: KernelView, k: int, fx: int, fy: int, fw: int) -> Seq<Shape> {
    let iy = fy + 8 + 24 * k;
    let f = s.files[k];
    let selected = s.selected_file_idx == Some(k as usize);
    (if selected {
        seq![rect(fx + 4, iy, fx + fw - 4, iy + 20, navy())]
    } else {
        seq![]
    }) + seq![
        text(fx + 10, iy + 3, file_icon(f.is_image), orange()),
        text(fx + 40, iy + 3, f.name, if selected { white() } else { black() }),
    ]
}

/// The first `m` rows of the file list.
pub open spec fn file_rows(s: KernelView, fx: int, fy: int, fw: int, m: int) -> Seq<Shape>
    decreases m,
{
    if m <= 0 {
        seq![]
    } else {
        file_rows(s, fx, fy, fw, m - 1) + file_row_shapes(s, m - 1, fx, fy, fw)
    }
}

/// The file manager inside a window: a white area and as many file rows as
/// fit.
pub open spec fn file_list_shapes(w: WindowView, s: KernelView) -> Seq<Shape> {
    let fx = w.x + 10;
    let fy = w.y + 34;
    let fw = w.width - 20;
    let fh = w.height - 45;
    if fw > 10 && fh > 10 {
        seq![rect(fx, fy, fx + fw, fy + fh, white())] + file_rows(
            s,
            fx,
            fy,
            fw,
            min(s.files.len() as int, rows_fitting(fh)),
        )
    } else {
        seq![]
    }
}

/// What a window shows inside its frame, by its id.
pub open spec fn content_shapes(w: WindowView, s: KernelView) -> Seq<Shape> {
    if w.id == 1 {
        terminal_shapes(w, s)
    } else if w.id == 2 {
        canvas_shapes(w, s)
    } else if w.id == 3 {
        file_list_shapes(w, s)
    } else {
        seq![]
    }
}

/// A window as drawn; a closed window draws nothing.
pub open spec fn window_shapes(w: WindowView, s: KernelView) -> Seq<Shape> {
    if w.is_open {
        frame_shapes(w) + content_shapes(w, s)
    } else {
        seq![]
    }
}

/// The first `n` windows, in order, each over the ones before.
pub open spec fn windows_shapes(s: KernelView, n: int) -> Seq<Shape>
    decreases n,
{
    if n <= 0 {
        seq![]
    } else {
        windows_shapes(s, n - 1) + window_shapes(s.windows[n - 1], s)
    }
}

/// The task bar: a white and a grey line, the face below them and three
/// labelled buttons.
pub open spec fn desktop_shapes() -> Seq<Shape> {
    seq![
        rect(0, 688, 1280, 689, white()),
        rect(0, 689, 1280, 690, mid_gray()),
        rect(0, 690, 1280, 720, face()),
        rect(15, 694, 85, 716, navy()),
        text(25, 700, "TERM"@, white()),
        rect(100, 694, 170, 716, orange()),
        text(110, 700, "DRAW"@, white()),
        rect(185, 694, 255, 716, rgb(0x00, 0xaa, 0x55)),
        text(195, 700, "FILE"@, white()),
    ]
}

/// The state with its frame buffer left out: nothing drawn depends on it.
pub open spec fn without_vram(s: KernelView) -> KernelView {
    KernelView { vram: seq![], ..s }
}

/// Everything drawn over the teal background, in order.
pub open spec fn scene_shapes(s: KernelView) -> Seq<Shape> {
    windows_shapes(without_vram(s), s.windows.len() as int) + desktop_shapes() + seq![
        cursor(s.mouse_x as int, s.mouse_y as int),
    ]
}

/// The frame buffer after the whole desktop has been drawn into `s.vram`.
pub open spec fn scene(s: KernelView) -> Seq<u8> {
    paint_all(paint(s.vram, rect(0, 0, WIDTH as int, HEIGHT as int, teal())), scene_shapes(s))
}

/// Row `k` of a title bar.
pub fn title_color(k: i64) -> (c: Rgb)
    requires
        0 <= k < 25,
    ensures
        c == title_gradient(k as int),
{
    Rgb { r: (10 * k / 25) as u8, g: (90 * k / 25) as u8, b: ((128 * (25 - k) + 255 * k) / 25) as u8 }
}

/// Draws the frame of `win`.
pub fn draw_frame(vram: &mut Vec<u8>, win: &WindowState)
    requires
        old(vram).len() >= VRAM_SIZE,
    ensures
        final(vram)@ == paint_all(old(vram)@, frame_shapes(win@)),
{
    let ghost v0 = vram@;
    let x = win.x as i64;
    let y = win.y as i64;
    let w = win.width as i64;
    let h = win.height as i64;
    let ghost xi = x as int;
    let ghost yi = y as int;
    let ghost wi = w as int;
    let ghost hi = h as int;
    let ghost mut ops: Seq<Shape> = seq![];

    fill_rect(vram, x, y, x + w, y + h, Rgb { r: 0xd4, g: 0xd0, b: 0xc8 });
    proof {
        lemma_paint_all_push(v0, ops, rect(xi, yi, xi + wi, yi + hi, face()));
        ops = ops.push(rect(xi, yi, xi + wi, yi + hi, face()));
    }
    fill_rect(vram, x, y, x + w, y + 1, Rgb { r: 255, g: 255, b: 255 });
    proof {
        lemma_paint_all_push(v0, ops, rect(xi, yi, xi + wi, yi + 1, white()));
        ops = ops.push(rect(xi, yi, xi + wi, yi + 1, white()));
    }
    fill_rect(vram, x, y + h - 1, x + w, y + h, Rgb { r: 0x40, g: 0x40, b: 0x40 });
    proof {
        lemma_paint_all_push(v0, ops, rect(xi, yi + hi - 1, xi + wi, yi + hi, shadow()));
        ops = ops.push(rect(xi, yi + hi - 1, xi + wi, yi + hi, shadow()));
    }
    fill_rect(vram, x, y, x + 1, y + h, Rgb { r: 255, g: 255, b: 255 });
    proof {
        lemma_paint_all_push(v0, ops, rect(xi, yi, xi + 1, yi + hi, white()));
        ops = ops.push(rect(xi, yi, xi + 1, yi + hi, white()));
    }
    fill_rect(vram, x + w - 1, y, x + w, y + h, Rgb { r: 0x40, g: 0x40, b: 0x40 });
    proof {
        lemma_paint_all_push(v0, ops, rect(xi + wi - 1, yi, xi + wi, yi + hi, shadow()));
        ops = ops.push(rect(xi + wi - 1, yi, xi + wi, yi + hi, shadow()));
    }
    let ghost edges = ops;
    let ghost bar = title_bar_shapes(xi, yi, wi);
    let mut k: i64 = 0;
    assert(bar.take(0) =~= Seq::<Shape>::empty());
    assert(edges + bar.take(0) =~= edges);
    while k < 25
        invariant
            0 <= k <= 25,
            x == xi,
            y == yi,
            w == wi,
            -0x8000_0000 <= xi < 0x8000_0000,
            -0x8000_0000 <= yi < 0x8000_0000,
            -0x8000_0000 <= wi < 0x8000_0000,
            bar == title_bar_shapes(xi, yi, wi),
            v0.len() >= VRAM_SIZE,
            vram@ == paint_all(v0, edges + bar.take(k as int)),
        decreases 25 - k,
    {
        let c = title_color(k);
        proof {
            lemma_paint_all_len(v0, edges + bar.take(k as int));
        }
        fill_rect(vram, x + 4, y + 3 + k, x + w - 4, y + 4 + k, c);
        proof {
            lemma_paint_all_push(v0, edges + bar.take(k as int), bar[k as int]);
            assert(edges + bar.take(k + 1) =~= (edges + bar.take(k as int)).push(bar[k as int]));
        }
        k = k + 1;
    }
    assert(bar.take(25) =~= bar);
    proof {
        ops = edges + bar;
        lemma_paint_all_len(v0, ops);
    }
    draw_string_scaled(vram, x + 12, y + 8, &win.title, Rgb { r: 255, g: 255, b: 255 });
    proof {
        lemma_paint_all_push(v0, ops, text(xi + 12, yi + 8, win.title@, white()));
        ops = ops.push(text(xi + 12, yi + 8, win.title@, white()));
    }
    let bx = x + w - 24;
    let by = y + 6;
    fill_rect(vram, bx, by, bx + 16, by + 16, Rgb { r: 0xe0, g: 0x40, b: 0x40 });
    proof {
        lemma_paint_all_push(v0, ops, rect(xi + wi - 24, yi + 6, xi + wi - 8, yi + 22, close_red()));
        ops = ops.push(rect(xi + wi - 24, yi + 6, xi + wi - 8, yi + 22, close_red()));
    }
    let mut cross: Vec<char> = Vec::new();
    cross.push('X');
    assert(cross@ =~= seq!['X']);
    draw_string_scaled(vram, bx + 5, by + 3, &cross, Rgb { r: 255, g: 255, b: 255 });
    proof {
        lemma_paint_all_push(v0, ops, text(xi + wi - 19, yi + 9, seq!['X'], white()));
        ops = ops.push(text(xi + wi - 19, yi + 9, seq!['X'], white()));
    }
    draw_grip(vram, x + w - 12, y + h - 12, Rgb { r: 0x80, g: 0x80, b: 0x80 });
    proof {
        lemma_paint_all_push(v0, ops, grip(xi + wi - 12, yi + hi - 12, mid_gray()));
        ops = ops.push(grip(xi + wi - 12, yi + hi - 12, mid_gray()));
        assert(ops =~= frame_shapes(win@));
    }
}

/// Draws the terminal inside `win`.
pub fn draw_terminal(vram: &mut Vec<u8>, win: &WindowState, kernel: &OSKernel)
    requires
        old(vram).len() >= VRAM_SIZE,
    ensures
        final(vram)@ == paint_all(old(vram)@, terminal_shapes(win@, kernel@)),
{
    let ghost v0 = vram@;
    let ghost s = kernel@;
    let tx = win.x as i64 + 8;
    let ty = win.y as i64 + 34;
    let tw = win.width as i64 - 16;
    let th = win.height as i64 - 42;
    if !(tw > 20 && th > 40) {
        return;
    }
    fill_rect(vram, tx, ty, tx + tw, ty + th, Rgb { r: 0x05, g: 0x05, b: 0x05 });
    let ghost base = seq![rect(tx as int, ty as int, tx + tw, ty + th, terminal_black())];
    let ghost fit = lines_fitting(th as int);
    let ghost logs = s.terminal_logs;
    proof {
        lemma_paint_all_push(v0, seq![], base[0]);
        assert(seq![].push(base[0]) =~= base);
        assert(log_shapes(logs, tx + 12, ty + 10, 0) =~= Seq::<Shape>::empty());
        assert(base + log_shapes(logs, tx + 12, ty + 10, 0) =~= base);
    }
    let mut line_y: i64 = ty + 10;
    let mut i: usize = 0;
    let ghost mut drawn: int = 0;
    while i < kernel.terminal_logs.len()
        invariant
            0 <= i <= kernel.terminal_logs.len(),
            s == kernel@,
            logs == s.terminal_logs,
            logs.len() == kernel.terminal_logs.len(),
            fit == lines_fitting(th as int),
            drawn == min(i as int, fit),
            line_y == ty + 10 + 16 * drawn,
            -0x1_0000_0000 <= tx < 0x1_0000_0000,
            -0x1_0000_0000 <= ty < 0x1_0000_0000,
            40 < th < 0x1_0000_0000,
            v0.len() >= VRAM_SIZE,
            vram@ == paint_all(v0, base + log_shapes(logs, tx + 12, ty + 10, drawn)),
        decreases kernel.terminal_logs.len() - i,
    {
        if line_y + 14 < ty + th - 25 {
            let ghost before = base + log_shapes(logs, tx + 12, ty + 10, drawn);
            let ghost line = text(tx + 12, line_y as int, logs[i as int], terminal_green());
            proof {
                lemma_paint_all_len(v0, before);
            }
            draw_string_scaled(vram, tx + 12, line_y, &kernel.terminal_logs[i], Rgb { r: 0x33, g: 0xff, b: 0x33 });
            proof {
                lemma_paint_all_push(v0, before, line);
                assert(drawn == i);
                assert(base + log_shapes(logs, tx + 12, ty + 10, drawn + 1) =~= before.push(line));
                drawn = drawn + 1;
            }
            line_y = line_y + 16;
        }
        i = i + 1;
    }
    let ghost logs_part = base + log_shapes(logs, tx + 12, ty + 10, drawn);
    let mut gt: Vec<char> = Vec::new();
    gt.push('>');
    let prompt = concat(&gt, &kernel.cmd_buffer);
    assert(prompt@ =~= seq!['>'] + s.cmd_buffer);
    proof {
        lemma_paint_all_len(v0, logs_part);
    }
    draw_string_scaled(vram, tx + 12, ty + th - 20, &prompt, Rgb { r: 255, g: 255, b: 255 });
    proof {
        let p = text(tx + 12, ty + th - 20, seq!['>'] + s.cmd_buffer, white());
        lemma_paint_all_push(v0, logs_part, p);
        assert(logs_part.push(p) =~= terminal_shapes(win@, s));
    }
}

/// Draws the canvas inside the paint program's window `win`.
pub fn draw_canvas_window(vram: &mut Vec<u8>, win: &WindowState, kernel: &OSKernel)
    requires
        old(vram).len() >= VRAM_SIZE,
        0 <= kernel.paint_width <= 400,
        0 <= kernel.paint_height,
        kernel.paint_height * 400 <= kernel.paint_pixels.len(),
    ensures
        final(vram)@ == paint_all(old(vram)@, canvas_shapes(win@, kernel@)),
{
    let ghost v0 = vram@;
    let cx = win.x as i64 + 10;
    let cy = win.y as i64 + 34;
    let cw = win.width as i64 - 20;
    let ch = win.height as i64 - 45;
    if cw > 10 && ch > 10 {
        blit_canvas(vram, cx, cy, cx + cw, cy + ch, &kernel.paint_pixels, kernel.paint_width, kernel.paint_height);
        proof {
            let c = canvas_shapes(win@, kernel@)[0];
            lemma_paint_all_push(v0, seq![], c);
            assert(seq![].push(c) =~= canvas_shapes(win@, kernel@));
        }
    }
}

/// Draws the file manager inside `win`.
pub fn draw_file_list(vram: &mut Vec<u8>, win: &WindowState, kernel: &OSKernel)
    requires
        old(vram).len() >= VRAM_SIZE,
    ensures
        final(vram)@ == paint_all(old(vram)@, file_list_shapes(win@, kernel@)),
{
    let ghost v0 = vram@;
    let ghost s = kernel@;
    let fx = win.x as i64 + 10;
    let fy = win.y as i64 + 34;
    let fw = win.width as i64 - 20;
    let fh = win.height as i64 - 45;
    if !(fw > 10 && fh > 10) {
        return;
    }
    fill_rect(vram, fx, fy, fx + fw, fy + fh, Rgb { r: 255, g: 255, b: 255 });
    let ghost base = seq![rect(fx as int, fy as int, fx + fw, fy + fh, white())];
    let ghost fit = rows_fitting(fh as int);
    proof {
        lemma_paint_all_push(v0, seq![], base[0]);
        assert(seq![].push(base[0]) =~= base);
        assert(base + file_rows(s, fx as int, fy as int, fw as int, 0) =~= base);
    }
    let mut item_y: i64 = fy + 8;
    let mut idx: usize = 0;
    while idx < kernel.files.len() && item_y + 24 <= fy + fh
        invariant
            0 <= idx <= kernel.files.len(),
            s == kernel@,
            s.files.len() == kernel.files.len(),
            fit == rows_fitting(fh as int),
            idx <= fit,
            item_y == fy + 8 + 24 * idx,
            -0x1_0000_0000 <= fx < 0x1_0000_0000,
            -0x1_0000_0000 <= fy < 0x1_0000_0000,
            10 < fw < 0x1_0000_0000,
            10 < fh < 0x1_0000_0000,
            v0.len() >= VRAM_SIZE,
            vram@ == paint_all(v0, base + file_rows(s, fx as int, fy as int, fw as int, idx as int)),
        decreases kernel.files.len() - idx,
    {
        let ghost mut ops = base + file_rows(s, fx as int, fy as int, fw as int, idx as int);
        let is_selected = match kernel.selected_file_idx {
            Some(sel) => sel == idx,
            None => false,
        };
        assert(is_selected == (s.selected_file_idx == Some(idx)));
        let ghost iy = item_y as int;
        if is_selected {
            proof {
                lemma_paint_all_len(v0, ops);
            }
            fill_rect(vram, fx + 4, item_y, fx + fw - 4, item_y + 20, Rgb { r: 0x00, g: 0x00, b: 0x80 });
            proof {
                let bar = rect(fx + 4, iy, fx + fw - 4, iy + 20, navy());
                lemma_paint_all_push(v0, ops, bar);
                ops = ops.push(bar);
            }
        }
        let file = &kernel.files[idx];
        let icon = if file.is_image {
            chars_of("[I]")
        } else {
            chars_of("[T]")
        };
        assert(icon@ == file_icon(s.files[idx as int].is_image));
        proof {
            lemma_paint_all_len(v0, ops);
        }
        draw_string_scaled(vram, fx + 10, item_y + 3, &icon, Rgb { r: 0xff, g: 0xaa, b: 0x00 });
        proof {
            let t = text(fx + 10, iy + 3, file_icon(s.files[idx as int].is_image), orange());
            lemma_paint_all_push(v0, ops, t);
            ops = ops.push(t);
            lemma_paint_all_len(v0, ops);
        }
        let txt_color = if is_selected {
            Rgb { r: 255, g: 255, b: 255 }
        } else {
            Rgb { r: 0, g: 0, b: 0 }
        };
        draw_string_scaled(vram, fx + 40, item_y + 3, &file.name, txt_color);
        proof {
            let t = text(fx + 40, iy + 3, s.files[idx as int].name, txt_color);
            lemma_paint_all_push(v0, ops, t);
            ops = ops.push(t);
            assert(ops =~= base + file_rows(s, fx as int, fy as int, fw as int, idx + 1));
        }
        item_y = item_y + 24;
        idx = idx + 1;
    }
    assert(idx == min(s.files.len() as int, fit));
}

/// Draws `win` with its contents; a closed window is not drawn.
pub fn draw_window_high_quality(vram: &mut Vec<u8>, win: &WindowState, kernel: &OSKernel)
    requires
        old(vram).len() >= VRAM_SIZE,
        0 <= kernel.paint_width <= 400,
        0 <= kernel.paint_height,
        kernel.paint_height * 400 <= kernel.paint_pixels.len(),
    ensures
        final(vram)@ == paint_all(old(vram)@, window_shapes(win@, kernel@)),
{
    let ghost v0 = vram@;
    if !win.is_open {
        return;
    }
    draw_frame(vram, win);
    let ghost v1 = vram@;
    proof {
        lemma_paint_all_len(v0, frame_shapes(win@));
    }
    if win.id == 1 {
        draw_terminal(vram, win, kernel);
    } else if win.id == 2 {
        draw_canvas_window(vram, win, kernel);
    } else if win.id == 3 {
        draw_file_list(vram, win, kernel);
    }
    proof {
        lemma_paint_all_concat(v0, frame_shapes(win@), content_shapes(win@, kernel@));
    }
}

/// Draws the task bar with its three buttons.
pub fn draw_desktop_ui_high_quality(vram: &mut Vec<u8>)
    requires
        old(vram).len() >= VRAM_SIZE,
    ensures
        final(vram)@ == paint_all(old(vram)@, desktop_shapes()),
{
    let ghost v0 = vram@;
    let ghost mut ops: Seq<Shape> = seq![];
    let white_c = Rgb { r: 255, g: 255, b: 255 };
    fill_rect(vram, 0, 688, 1280, 689, white_c);
    proof {
        lemma_paint_all_push(v0, ops, rect(0, 688, 1280, 689, white()));
        ops = ops.push(rect(0, 688, 1280, 689, white()));
    }
    fill_rect(vram, 0, 689, 1280, 690, Rgb { r: 0x80, g: 0x80, b: 0x80 });
    proof {
        lemma_paint_all_push(v0, ops, rect(0, 689, 1280, 690, mid_gray()));
        ops = ops.push(rect(0, 689, 1280, 690, mid_gray()));
    }
    fill_rect(vram, 0, 690, 1280, 720, Rgb { r: 0xd4, g: 0xd0, b: 0xc8 });
    proof {
        lemma_paint_all_push(v0, ops, rect(0, 690, 1280, 720, face()));
        ops = ops.push(rect(0, 690, 1280, 720, face()));
    }
    fill_rect(vram, 15, 694, 85, 716, Rgb { r: 0x00, g: 0x00, b: 0x80 });
    proof {
        lemma_paint_all_push(v0, ops, rect(15, 694, 85, 716, navy()));
        ops = ops.push(rect(15, 694, 85, 716, navy()));
    }
    let term = chars_of("TERM");
    draw_string_scaled(vram, 25, 700, &term, white_c);
    proof {
        lemma_paint_all_push(v0, ops, text(25, 700, "TERM"@, white()));
        ops = ops.push(text(25, 700, "TERM"@, white()));
    }
    fill_rect(vram, 100, 694, 170, 716, Rgb { r: 0xff, g: 0xaa, b: 0x00 });
    proof {
        lemma_paint_all_push(v0, ops, rect(100, 694, 170, 716, orange()));
        ops = ops.push(rect(100, 694, 170, 716, orange()));
    }
    let draw = chars_of("DRAW");
    draw_string_scaled(vram, 110, 700, &draw, white_c);
    proof {
        lemma_paint_all_push(v0, ops, text(110, 700, "DRAW"@, white()));
        ops = ops.push(text(110, 700, "DRAW"@, white()));
    }
    fill_rect(vram, 185, 694, 255, 716, Rgb { r: 0x00, g: 0xaa, b: 0x55 });
    proof {
        lemma_paint_all_push(v0, ops, rect(185, 694, 255, 716, rgb(0x00, 0xaa, 0x55)));
        ops = ops.push(rect(185, 694, 255, 716, rgb(0x00, 0xaa, 0x55)));
    }
    let file = chars_of("FILE");
    draw_string_scaled(vram, 195, 700, &file, white_c);
    proof {
        lemma_paint_all_push(v0, ops, text(195, 700, "FILE"@, white()));
        ops = ops.push(text(195, 700, "FILE"@, white()));
        assert(ops =~= desktop_shapes());
    }
}

impl OSKernel {
    /// Redraws the whole desktop into the frame buffer: the teal background,
    /// the windows in order, the task bar and the mouse arrow. Nothing else
    /// changes.
    pub fn render_all(&mut self)
        requires
            old(self).inv(),
        ensures
            final(self).inv(),
            final(self)@ == (KernelView { vram: scene(old(self)@), ..old(self)@ }),
    {
        let ghost s0 = self@;
        let mut vram: Vec<u8> = Vec::new();
        std::mem::swap(&mut vram, &mut self.vram);
        assert(self@ =~= without_vram(s0));
        clear_vram(&mut vram, Rgb { r: 0x1a, g: 0x5c, b: 0x5a });
        let ghost cleared = vram@;
        let mut i: usize = 0;
        assert(windows_shapes(without_vram(s0), 0) =~= Seq::<Shape>::empty());
        while i < self.windows.len()
            invariant
                i <= self.windows.len(),
                self@ == without_vram(s0),
                s0.windows.len() == self.windows.len(),
                cleared.len() == VRAM_SIZE,
                0 <= self.paint_width <= 400,
                0 <= self.paint_height <= 400,
                self.paint_pixels.len() == CANVAS_CELLS,
                vram@ == paint_all(cleared, windows_shapes(without_vram(s0), i as int)),
            decreases self.windows.len() - i,
        {
            proof {
                lemma_paint_all_len(cleared, windows_shapes(without_vram(s0), i as int));
            }
            let ghost before = vram@;
            draw_window_high_quality(&mut vram, &self.windows[i], self);
            proof {
                lemma_paint_all_concat(cleared, windows_shapes(without_vram(s0), i as int),
                    window_shapes(self.windows@[i as int]@, self@));
            }
            i = i + 1;
        }
        let ghost ws = windows_shapes(without_vram(s0), s0.windows.len() as int);
        proof {
            lemma_paint_all_len(cleared, ws);
        }
        draw_desktop_ui_high_quality(&mut vram);
        proof {
            lemma_paint_all_concat(cleared, ws, desktop_shapes());
            lemma_paint_all_len(cleared, ws + desktop_shapes());
        }
        draw_mouse_cursor_hd(&mut vram, self.mouse_x as i64, self.mouse_y as i64);
        proof {
            lemma_paint_all_push(cleared, ws + desktop_shapes(), cursor(s0.mouse_x as int, s0.mouse_y as int));
            assert((ws + desktop_shapes()).push(cursor(s0.mouse_x as int, s0.mouse_y as int)) =~= scene_shapes(s0));
        }
        std::mem::swap(&mut vram, &mut self.vram);
        assert(self@ =~= (KernelView { vram: scene(s0), ..s0 }));
    }
}

} // verus!
