//! How the desktop answers the keyboard and the mouse.
use vstd::prelude::*;
use crate::scene::scene;
use crate::state::{
    kernel_inv, FileView, KernelView, OSKernel, WindowView, CANVAS_CELLS, CMD_MAX,
};
use crate::text::{
    accepted_char, chars_eq, chars_of, concat, copy_chars, has_prefix, lower, skip_chars,
    starts_with, str_is, to_lower, to_upper, trim, trim_spaces, upper,
};

verus! {

/// The state after the desktop has been redrawn.
pub open spec fn rendered(s: KernelView) -> KernelView {
    KernelView { vram: scene(s), ..s }
}

/// The command the terminal runs for its command line: trimmed and in lower
/// case.
pub open spec fn command_of(buf: Seq<char>) -> Seq<char> {
    lower(trim(buf))
}

/// Index `i` is the first file named `name`.
pub open spec fn first_named(files: Seq<FileView>, name: Seq<char>, i: int) -> bool {
    &&& 0 <= i < files.len()
    &&& files[i].name == name
    &&& forall|j: int| 0 <= j < i ==> files[j].name != name
}

/// The index of the first file named `name`, if there is one.
pub open spec fn find_file(files: Seq<FileView>, name: Seq<char>) -> Option<int> {
    if exists|i: int| first_named(files, name, i) {
        Some(choose|i: int| first_named(files, name, i))
    } else {
        None
    }
}

/// The lines `help` prints.
pub open spec fn help_lines() -> Seq<Seq<char>> {
    seq!["CLEAR : CLEAR SCREEN"@, "PAINT : RESET CANVAS"@, "CAT [FILE] : READ FILE"@]
}

/// A white canvas.
pub open spec fn blank_canvas() -> Seq<u8> {
    Seq::new(CANVAS_CELLS as nat, |i: int| 255u8)
}

/// The terminal after Enter: the command line is echoed after `>` and run,
/// then emptied. `cat NAME` prints the file whose name is `NAME` in upper
/// case; `clear` empties the terminal (the echo too); `help` lists the
/// commands; `paint` whitens the canvas.
pub open spec fn enter_step(s: KernelView) -> KernelView {
    let cmd = command_of(s.cmd_buffer);
    let logs = s.terminal_logs.push(seq!['>'] + cmd);
    let s1 = if has_prefix(cmd, "cat "@) {
        let fname = upper(cmd.skip(4));
        let out = match find_file(s.files, fname) {
            Some(i) => s.files[i].content,
            None => "FILE NOT FOUND"@,
        };
        KernelView { terminal_logs: logs.push(out), ..s }
    } else if cmd == "clear"@ {
        KernelView { terminal_logs: seq![], ..s }
    } else if cmd == "help"@ {
        KernelView { terminal_logs: logs + help_lines(), ..s }
    } else if cmd == "paint"@ {
        KernelView {
            paint_pixels: blank_canvas(),
            terminal_logs: logs.push("CANVAS BUFFER RESET"@),
            ..s
        }
    } else {
        KernelView { terminal_logs: logs.push("COMMAND NOT FOUND"@), ..s }
    };
    KernelView { cmd_buffer: seq![], ..s1 }
}

/// The desktop after the key named `key` was pressed. Keys go to the
/// terminal, and only while its window is open: Enter runs the command line,
/// Backspace removes its last character, and a single letter, digit, space
/// or dot is added to it while it is shorter than `CMD_MAX`. (A key name of
/// one byte is one ASCII character; every accepted character is ASCII.)
pub open spec fn key_step(s: KernelView, key: Seq<char>) -> KernelView {
    if !s.windows[0].is_open {
        s
    } else if key == "Enter"@ {
        enter_step(s)
    } else if key == "Backspace"@ {
        KernelView {
            cmd_buffer: if s.cmd_buffer.len() > 0 {
                s.cmd_buffer.drop_last()
            } else {
                s.cmd_buffer
            },
            ..s
        }
    } else if key.len() == 1 && accepted_char(key[0]) && s.cmd_buffer.len() < CMD_MAX {
        KernelView { cmd_buffer: s.cmd_buffer.push(key[0]), ..s }
    } else {
        s
    }
}

/// What a mouse press landed on.
pub enum Hit {
    /// The close button of window `i`.
    Close(usize),
    /// The resize grip of window `i`; the grab offsets follow.
    Resize(usize, i64, i64),
    /// The title bar of window `i`; the grab offsets follow.
    Drag(usize, i64, i64),
    /// The cell of the canvas at this index.
    PaintAt(usize),
    /// This row of the file list.
    OpenFile(usize),
}

/// The row of the file list at `fy` pixels below the top of the list. Rust's
/// `/` rounds towards zero, so the top margin belongs to row 0.
pub open spec fn row_of(fy: int) -> int {
    if fy < 8 {
        0
    } else {
        (fy - 8) / 24
    }
}

/// What a press at `(mx, my)` does to window `i`, if anything: the close
/// button, the grip and the title bar first, then the canvas of the paint
/// program or the rows of the file manager.
pub open spec fn window_hit(s: KernelView, i: int, mx: int, my: int) -> Option<Hit> {
    let w = s.windows[i];
    let x = w.x as int;
    let y = w.y as int;
    let wd = w.width as int;
    let h = w.height as int;
    if !w.is_open {
        None
    } else if x + wd - 24 <= mx <= x + wd - 8 && y + 6 <= my <= y + 22 {
        Some(Hit::Close(i as usize))
    } else if x + wd - 16 <= mx <= x + wd && y + h - 16 <= my <= y + h {
        Some(Hit::Resize(i as usize, (mx - wd) as i64, (my - h) as i64))
    } else if x <= mx <= x + wd && y <= my <= y + 30 {
        Some(Hit::Drag(i as usize, (mx - x) as i64, (my - y) as i64))
    } else if w.id == 2 && 0 <= mx - (x + 10) < s.paint_width && 0 <= my - (y + 34) < s.paint_height {
        Some(Hit::PaintAt(((my - (y + 34)) * 400 + mx - (x + 10)) as usize))
    } else if w.id == 3 && 0 <= mx - (x + 10) < wd - 20 && 0 <= my - (y + 34) < h - 45 && row_of(
        my - (y + 34),
    ) < s.files.len() {
        Some(Hit::OpenFile(row_of(my - (y + 34)) as usize))
    } else {
        None
    }
}

/// What a press hits among the first `n` windows, the last drawn (topmost)
/// first.
pub open spec fn scan(s: KernelView, mx: int, my: int, n: int) -> Option<Hit>
    decreases n,
{
    if n <= 0 {
        None
    } else {
        match window_hit(s, n - 1, mx, my) {
            Some(h) => Some(h),
            None => scan(s, mx, my, n - 1),
        }
    }
}

/// Whether `mx` lies on the task-bar button of window `i`.
pub open spec fn taskbar_button(i: int, mx: int) -> bool {
    (i == 0 && 15 <= mx <= 85) || (i == 1 && 100 <= mx <= 170) || (i == 2 && 185 <= mx <= 255)
}

/// The windows after a press at `(mx, my)` on the task bar: a button opens
/// its window.
pub open spec fn taskbar_windows(ws: Seq<WindowView>, mx: int, my: int) -> Seq<WindowView> {
    Seq::new(
        ws.len(),
        |i: int|
            if 694 <= my <= 716 && taskbar_button(i, mx) {
                WindowView { is_open: true, ..ws[i] }
            } else {
                ws[i]
            },
    )
}

/// The canvas with the 40x40 square at `(40, 40)` in black: how the image
/// file opens.
pub open spec fn stamp(p: Seq<u8>) -> Seq<u8> {
    Seq::new(
        p.len(),
        |j: int| if 40 <= j / 400 < 80 && 40 <= j % 400 < 80 { 0u8 } else { p[j] },
    )
}

/// The desktop after a press lands on `h`.
pub open spec fn apply_hit(s: KernelView, h: Hit) -> KernelView {
    match h {
        Hit::Close(i) => KernelView {
            windows: s.windows.update(i as int, WindowView { is_open: false, ..s.windows[i as int] }),
            ..s
        },
        Hit::Resize(i, ox, oy) => KernelView {
            active_resize_id: Some(s.windows[i as int].id),
            drag_offset_x: ox,
            drag_offset_y: oy,
            ..s
        },
        Hit::Drag(i, ox, oy) => KernelView {
            active_drag_id: Some(s.windows[i as int].id),
            drag_offset_x: ox,
            drag_offset_y: oy,
            ..s
        },
        Hit::PaintAt(p) => KernelView { paint_pixels: s.paint_pixels.update(p as int, 0), ..s },
        Hit::OpenFile(f) => {
            let file = s.files[f as int];
            let logs = s.terminal_logs.push("OPENING FILE: "@ + file.name);
            if !file.is_image {
                KernelView { selected_file_idx: Some(f), terminal_logs: logs.push(file.content), ..s }
            } else {
                KernelView {
                    selected_file_idx: Some(f),
                    terminal_logs: logs.push("BMP DRAWN TO CANVAS"@),
                    paint_pixels: stamp(s.paint_pixels),
                    ..s
                }
            }
        },
    }
}

/// The desktop after the mouse button went down at `(mx, my)`: the button is
/// held, the task bar opens windows, and then the topmost open window under
/// the pointer takes the press.
pub open spec fn mouse_down_step(s: KernelView, mx: i32, my: i32) -> KernelView {
    let s1 = KernelView {
        is_mouse_down: true,
        windows: taskbar_windows(s.windows, mx as int, my as int),
        ..s
    };
    match scan(s1, mx as int, my as int, s1.windows.len() as int) {
        Some(h) => apply_hit(s1, h),
        None => s1,
    }
}

pub open spec fn fits_i32(v: int) -> bool {
    i32::MIN <= v <= i32::MAX
}

/// Whether moving to `(mx, my)` places a dragged or resized window within
/// `i32`; otherwise the subtraction overflows.
pub open spec fn grab_fits(s: KernelView, mx: i32, my: i32) -> bool {
    (s.active_resize_id is Some || s.active_drag_id is Some) ==> (fits_i32(mx - s.drag_offset_x)
        && fits_i32(my - s.drag_offset_y))
}

pub open spec fn max(a: int, b: int) -> int {
    if a >= b {
        a
    } else {
        b
    }
}

/// The desktop after the pointer moved to `(mx, my)`: a grip in hand resizes
/// its window (to at least 180 by 120), a title bar in hand moves its window,
/// and with the button down and nothing in hand the pointer paints black on
/// the canvas of the open paint program.
pub open spec fn mouse_move_step(s: KernelView, mx: i32, my: i32) -> KernelView {
    let ox = s.drag_offset_x as int;
    let oy = s.drag_offset_y as int;
    let s1 = KernelView { mouse_x: mx, mouse_y: my, ..s };
    let s2 = match s1.active_resize_id {
        Some(id) => {
            let i = id - 1;
            KernelView {
                windows: s1.windows.update(
                    i,
                    WindowView {
                        width: max(mx - ox, 180) as i32,
                        height: max(my - oy, 120) as i32,
                        ..s1.windows[i]
                    },
                ),
                ..s1
            }
        },
        None => s1,
    };
    let s3 = match s2.active_drag_id {
        Some(id) => {
            let i = id - 1;
            KernelView {
                windows: s2.windows.update(
                    i,
                    WindowView { x: (mx - ox) as i32, y: (my - oy) as i32, ..s2.windows[i] },
                ),
                ..s2
            }
        },
        None => s2,
    };
    let w = s3.windows[1];
    let cx = mx - (w.x + 10);
    let cy = my - (w.y + 34);
    if s3.is_mouse_down && s3.active_drag_id is None && s3.active_resize_id is None && w.is_open && 0
        <= cx < s3.paint_width && 0 <= cy < s3.paint_height {
        KernelView { paint_pixels: s3.paint_pixels.update(cy * 400 + cx, 0), ..s3 }
    } else {
        s3
    }
}

/// The desktop after the mouse button went up: nothing is held any more.
pub open spec fn mouse_up_step(s: KernelView) -> KernelView {
    KernelView { active_drag_id: None, active_resize_id: None, is_mouse_down: false, ..s }
}

/// What a hit from `window_hit` can be: a window or file that exists, a
/// cell of the canvas, a grab offset that is the difference of two `i32`s.
pub open spec fn hit_ok(s: KernelView, h: Hit) -> bool {
    match h {
        Hit::Close(i) => i < s.windows.len(),
        Hit::Resize(i, ox, oy) => i < s.windows.len() && -0x2_0000_0000 <= ox <= 0x2_0000_0000
            && -0x2_0000_0000 <= oy <= 0x2_0000_0000,
        Hit::Drag(i, ox, oy) => i < s.windows.len() && -0x2_0000_0000 <= ox <= 0x2_0000_0000
            && -0x2_0000_0000 <= oy <= 0x2_0000_0000,
        Hit::PaintAt(p) => p < s.paint_pixels.len(),
        Hit::OpenFile(f) => f < s.files.len(),
    }
}

/// Whether the terminal takes `c` onto its command line.
pub fn is_accepted(c: char) -> (b: bool)
    ensures
        b == accepted_char(c),
{
    ('a' <= c && c <= 'z') || ('A' <= c && c <= 'Z') || ('0' <= c && c <= '9') || c == ' ' || c == '.'
}

impl OSKernel {
    /// The index of the first file named `name`.
    pub fn find_file_named(&self, name: &Vec<char>) -> (r: Option<usize>)
        ensures
            match r {
                Some(i) => find_file(self@.files, name@) == Some(i as int),
                None => find_file(self@.files, name@) is None,
            },
    {
        let ghost files = self@.files;
        let mut i: usize = 0;
        while i < self.files.len()
            invariant
                i <= self.files.len(),
                files == self@.files,
                files.len() == self.files.len(),
                forall|j: int| 0 <= j < i ==> files[j].name != name@,
            decreases self.files.len() - i,
        {
            if chars_eq(&self.files[i].name, name) {
                proof {
                    assert(first_named(files, name@, i as int));
                    let k = choose|k: int| first_named(files, name@, k);
                    assert(k == i) by {
                        if k < i {
                            assert(files[k].name != name@);
                        } else if k > i {
                            assert(files[i as int].name != name@);
                        }
                    }
                }
                return Some(i);
            }
            i = i + 1;
        }
        None
    }

    /// Runs the command line (Enter).
    fn run_command(&mut self)
        requires
            old(self).inv(),
        ensures
            final(self).inv(),
            final(self)@ == enter_step(old(self)@),
    {
        let ghost s = self@;
        let trimmed = trim_spaces(&self.cmd_buffer);
        let cmd = to_lower(&trimmed);
        let mut gt: Vec<char> = Vec::new();
        gt.push('>');
        let echo = concat(&gt, &cmd);
        assert(gt@ =~= seq!['>']);
        let ghost logs = s.terminal_logs.push(seq!['>'] + cmd@);
        self.terminal_logs.push(echo);
        assert(self@.terminal_logs =~= logs);
        let cat = chars_of("cat ");
        proof {
            reveal_strlit("cat ");
        }
        if starts_with(&cmd, &cat) {
            let rest = skip_chars(&cmd, 4);
            let fname = to_upper(&rest);
            let out = match self.find_file_named(&fname) {
                Some(i) => copy_chars(&self.files[i].content),
                None => chars_of("FILE NOT FOUND"),
            };
            self.terminal_logs.push(out);
            assert(self@.terminal_logs =~= logs.push(out@));
        } else if chars_eq(&cmd, &chars_of("clear")) {
            self.terminal_logs.clear();
            assert(self@.terminal_logs =~= Seq::<Seq<char>>::empty());
        } else if chars_eq(&cmd, &chars_of("help")) {
            self.terminal_logs.push(chars_of("CLEAR : CLEAR SCREEN"));
            self.terminal_logs.push(chars_of("PAINT : RESET CANVAS"));
            self.terminal_logs.push(chars_of("CAT [FILE] : READ FILE"));
            assert(self@.terminal_logs =~= logs + help_lines());
        } else if chars_eq(&cmd, &chars_of("paint")) {
            self.paint_pixels = vec![255u8; CANVAS_CELLS];
            self.terminal_logs.push(chars_of("CANVAS BUFFER RESET"));
            assert(self@.paint_pixels =~= blank_canvas());
            assert(self@.terminal_logs =~= logs.push("CANVAS BUFFER RESET"@));
        } else {
            self.terminal_logs.push(chars_of("COMMAND NOT FOUND"));
            assert(self@.terminal_logs =~= logs.push("COMMAND NOT FOUND"@));
        }
        self.cmd_buffer.clear();
        assert(self@ =~= enter_step(s));
    }

    /// Updates the desktop for the key named `key`, without redrawing.
    pub fn apply_key(&mut self, key: &str)
        requires
            old(self).inv(),
        ensures
            final(self).inv(),
            final(self)@ == key_step(old(self)@, key@),
    {
        let ghost s = self@;
        if !self.windows[0].is_open {
            return;
        }
        if str_is(key, "Enter") {
            self.run_command();
        } else if str_is(key, "Backspace") {
            self.cmd_buffer.pop();
            assert(self@ =~= key_step(s, key@));
        } else {
            let n = key.unicode_len();
            if n == 1 {
                let c = key.get_char(0);
                if is_accepted(c) && self.cmd_buffer.len() < CMD_MAX {
                    self.cmd_buffer.push(c);
                    assert(self@ =~= key_step(s, key@));
                }
            }
        }
    }

    /// What a press at `(mx, my)` does to window `i`.
    fn window_hit_at(&self, i: usize, mx: i32, my: i32) -> (r: Option<Hit>)
        requires
            i < self.windows.len(),
            kernel_inv(KernelView { vram: self@.vram, ..self@ }),
        ensures
            r == window_hit(self@, i as int, mx as int, my as int),
            r matches Some(h) ==> hit_ok(self@, h),
    {
        let w = &self.windows[i];
        let x = w.x as i64;
        let y = w.y as i64;
        let wd = w.width as i64;
        let h = w.height as i64;
        let mx = mx as i64;
        let my = my as i64;
        if !w.is_open {
            None
        } else if x + wd - 24 <= mx && mx <= x + wd - 8 && y + 6 <= my && my <= y + 22 {
            Some(Hit::Close(i))
        } else if x + wd - 16 <= mx && mx <= x + wd && y + h - 16 <= my && my <= y + h {
            Some(Hit::Resize(i, mx - wd, my - h))
        } else if x <= mx && mx <= x + wd && y <= my && my <= y + 30 {
            Some(Hit::Drag(i, mx - x, my - y))
        } else if w.id == 2 && 0 <= mx - (x + 10) && mx - (x + 10) < self.paint_width as i64 && 0 <= my
            - (y + 34) && my - (y + 34) < self.paint_height as i64 {
            Some(Hit::PaintAt(((my - (y + 34)) * 400 + mx - (x + 10)) as usize))
        } else if w.id == 3 {
            let fx = mx - (x + 10);
            let fy = my - (y + 34);
            if 0 <= fx && fx < wd - 20 && 0 <= fy && fy < h - 45 {
                let row: i64 = if fy < 8 {
                    0
                } else {
                    (fy - 8) / 24
                };
                if (row as usize) < self.files.len() {
                    Some(Hit::OpenFile(row as usize))
                } else {
                    None
                }
            } else {
                None
            }
        } else {
            None
        }
    }

    /// Updates the desktop for a press at `(mx, my)`, without redrawing.
    pub fn apply_mouse_down(&mut self, mx: i32, my: i32)
        requires
            old(self).inv(),
        ensures
            final(self).inv(),
            final(self)@ == mouse_down_step(old(self)@, mx, my),
    {
        let ghost s = self@;
        self.is_mouse_down = true;
        if my >= 694 && my <= 716 {
            if mx >= 15 && mx <= 85 {
                self.windows[0].is_open = true;
            }
            if mx >= 100 && mx <= 170 {
                self.windows[1].is_open = true;
            }
            if mx >= 185 && mx <= 255 {
                self.windows[2].is_open = true;
            }
        }
        let ghost s1 = KernelView {
            is_mouse_down: true,
            windows: taskbar_windows(s.windows, mx as int, my as int),
            ..s
        };
        assert(self@.windows =~= s1.windows);
        assert(self@ =~= s1);
        let mut hit: Option<Hit> = None;
        let mut i: usize = self.windows.len();
        while i > 0 && hit.is_none()
            invariant
                i <= self.windows.len(),
                self@ == s1,
                kernel_inv(s1),
                hit is None ==> scan(s1, mx as int, my as int, s1.windows.len() as int) == scan(
                    s1,
                    mx as int,
                    my as int,
                    i as int,
                ),
                hit is Some ==> hit == scan(s1, mx as int, my as int, s1.windows.len() as int),
                hit matches Some(h) ==> hit_ok(s1, h),
            decreases i,
        {
            i = i - 1;
            hit = self.window_hit_at(i, mx, my);
        }
        match hit {
            None => {},
            Some(Hit::Close(i)) => {
                self.windows[i].is_open = false;
                assert(self@ =~= apply_hit(s1, Hit::Close(i)));
            },
            Some(Hit::Resize(i, ox, oy)) => {
                self.active_resize_id = Some(self.windows[i].id);
                self.drag_offset_x = ox;
                self.drag_offset_y = oy;
            },
            Some(Hit::Drag(i, ox, oy)) => {
                self.active_drag_id = Some(self.windows[i].id);
                self.drag_offset_x = ox;
                self.drag_offset_y = oy;
            },
            Some(Hit::PaintAt(p)) => {
                self.paint_pixels.set(p, 0);
            },
            Some(Hit::OpenFile(f)) => {
                self.selected_file_idx = Some(f);
                let prefix = chars_of("OPENING FILE: ");
                let line = concat(&prefix, &self.files[f].name);
                self.terminal_logs.push(line);
                let ghost logs = s1.terminal_logs.push("OPENING FILE: "@ + s1.files[f as int].name);
                assert(self@.terminal_logs =~= logs);
                if !self.files[f].is_image {
                    let content = copy_chars(&self.files[f].content);
                    self.terminal_logs.push(content);
                    assert(self@.terminal_logs =~= logs.push(s1.files[f as int].content));
                } else {
                    self.terminal_logs.push(chars_of("BMP DRAWN TO CANVAS"));
                    assert(self@.terminal_logs =~= logs.push("BMP DRAWN TO CANVAS"@));
                    self.stamp_canvas();
                }
                assert(self@ =~= apply_hit(s1, Hit::OpenFile(f)));
            },
        }
    }

    /// Blackens the 40x40 square at `(40, 40)` of the canvas.
    fn stamp_canvas(&mut self)
        requires
            old(self).paint_pixels.len() == CANVAS_CELLS,
        ensures
            final(self)@ == (KernelView { paint_pixels: stamp(old(self)@.paint_pixels), ..old(self)@ }),
    {
        let ghost s = self@;
        let ghost p0 = s.paint_pixels;
        let mut yy: usize = 40;
        while yy < 80
            invariant
                40 <= yy <= 80,
                self.paint_pixels.len() == CANVAS_CELLS,
                self@ == (KernelView { paint_pixels: self@.paint_pixels, ..s }),
                p0.len() == CANVAS_CELLS,
                forall|j: int|
                    0 <= j < CANVAS_CELLS ==> #[trigger] self.paint_pixels@[j] == (if 40 <= j / 400 < yy && 40
                        <= j % 400 < 80 {
                        0u8
                    } else {
                        p0[j]
                    }),
            decreases 80 - yy,
        {
            let mut xx: usize = 40;
            while xx < 80
                invariant
                    40 <= yy < 80,
                    40 <= xx <= 80,
                    self.paint_pixels.len() == CANVAS_CELLS,
                    self@ == (KernelView { paint_pixels: self@.paint_pixels, ..s }),
                    p0.len() == CANVAS_CELLS,
                    forall|j: int|
                        0 <= j < CANVAS_CELLS ==> #[trigger] self.paint_pixels@[j] == (if (40 <= j / 400 < yy && 40
                            <= j % 400 < 80) || (j / 400 == yy && 40 <= j % 400 < xx) {
                            0u8
                        } else {
                            p0[j]
                        }),
                decreases 80 - xx,
            {
                self.paint_pixels.set(yy * 400 + xx, 0);
                xx = xx + 1;
            }
            yy = yy + 1;
        }
        assert(self@.paint_pixels =~= stamp(p0));
        assert(self@ =~= (KernelView { paint_pixels: stamp(p0), ..s }));
    }

    /// Updates the desktop for the pointer moving to `(mx, my)`, without
    /// redrawing. Returns false, and changes nothing, when a window in hand
    /// would leave the range of `i32`.
    pub fn apply_mouse_move(&mut self, mx: i32, my: i32) -> (ok: bool)
        requires
            old(self).inv(),
        ensures
            final(self).inv(),
            ok == grab_fits(old(self)@, mx, my),
            ok ==> final(self)@ == mouse_move_step(old(self)@, mx, my),
            !ok ==> final(self)@ == old(self)@,
    {
        let ghost s = self@;
        let nx: i64 = mx as i64 - self.drag_offset_x;
        let ny: i64 = my as i64 - self.drag_offset_y;
        let grabbing = self.active_resize_id.is_some() || self.active_drag_id.is_some();
        if grabbing && (nx < i32::MIN as i64 || nx > i32::MAX as i64 || ny < i32::MIN as i64 || ny
            > i32::MAX as i64) {
            return false;
        }
        self.mouse_x = mx;
        self.mouse_y = my;
        if let Some(id) = self.active_resize_id {
            let i = (id - 1) as usize;
            self.windows[i].width = if nx > 180 {
                nx as i32
            } else {
                180
            };
            self.windows[i].height = if ny > 120 {
                ny as i32
            } else {
                120
            };
        }
        let ghost s2 = self@;
        if let Some(id) = self.active_drag_id {
            let i = (id - 1) as usize;
            self.windows[i].x = nx as i32;
            self.windows[i].y = ny as i32;
        }
        let ghost s3 = self@;
        if self.is_mouse_down && self.active_drag_id.is_none() && self.active_resize_id.is_none() {
            let wx = self.windows[1].x as i64;
            let wy = self.windows[1].y as i64;
            if self.windows[1].is_open {
                let cx = mx as i64 - (wx + 10);
                let cy = my as i64 - (wy + 34);
                if 0 <= cx && cx < self.paint_width as i64 && 0 <= cy && cy < self.paint_height as i64 {
                    self.paint_pixels.set((cy * 400 + cx) as usize, 0);
                }
            }
        }
        assert(self@ =~= mouse_move_step(s, mx, my));
        true
    }

    /// Updates the desktop for the mouse button going up, without redrawing.
    pub fn apply_mouse_up(&mut self)
        requires
            old(self).inv(),
        ensures
            final(self).inv(),
            final(self)@ == mouse_up_step(old(self)@),
    {
        self.active_drag_id = None;
        self.active_resize_id = None;
        self.is_mouse_down = false;
    }

    /// Draws the desktop for the first time.
    pub fn init_kernel(&mut self)
        requires
            old(self).inv(),
        ensures
            final(self).inv(),
            final(self)@ == rendered(old(self)@),
    {
        self.render_all();
    }

    /// Answers the key named `key` and redraws the desktop.
    pub fn on_os_keypress(&mut self, key: &str)
        requires
            old(self).inv(),
        ensures
            final(self).inv(),
            final(self)@ == rendered(key_step(old(self)@, key@)),
    {
        self.apply_key(key);
        self.render_all();
    }

    /// Answers a press at `(mx, my)` and redraws the desktop.
    pub fn on_mouse_down(&mut self, mx: i32, my: i32)
        requires
            old(self).inv(),
        ensures
            final(self).inv(),
            final(self)@ == rendered(mouse_down_step(old(self)@, mx, my)),
    {
        self.apply_mouse_down(mx, my);
        self.render_all();
    }

    /// Answers the pointer moving to `(mx, my)` and redraws the desktop.
    /// Returns false, and changes nothing, when a window in hand would leave
    /// the range of `i32`.
    pub fn on_mouse_move(&mut self, mx: i32, my: i32) -> (ok: bool)
        requires
            old(self).inv(),
        ensures
            final(self).inv(),
            ok == grab_fits(old(self)@, mx, my),
            ok ==> final(self)@ == rendered(mouse_move_step(old(self)@, mx, my)),
            !ok ==> final(self)@ == old(self)@,
    {
        if !self.apply_mouse_move(mx, my) {
            return false;
        }
        self.render_all();
        true
    }

    /// Answers the mouse button going up and redraws the desktop.
    pub fn on_mouse_up(&mut self)
        requires
            old(self).inv(),
        ensures
            final(self).inv(),
            final(self)@ == rendered(mouse_up_step(old(self)@)),
    {
        self.apply_mouse_up();
        self.render_all();
    }
}

} // verus!
