//! The state of the desktop: its windows, files, drawing canvas, terminal
//! and frame buffer.
use vstd::prelude::*;
use crate::raster::VRAM_SIZE;
use crate::text::{accepted_char, chars_of};

verus! {

/// The number of cells of the drawing canvas (400 by 400).
pub const CANVAS_CELLS: usize = 400 * 400;

/// The longest command line the terminal keeps.
pub const CMD_MAX: usize = 40;

pub struct WindowState {
    pub id: u8,
    pub title: Vec<char>,
    pub x: i32,
    pub y: i32,
    pub width: i32,
    pub height: i32,
    pub is_open: bool,
}

/// A file of the desktop's file manager: a text, or an image that opens onto
/// the canvas.
pub struct VirtualFile {
    pub name: Vec<char>,
    pub content: Vec<char>,
    pub is_image: bool,
}

pub struct OSKernel {
    pub vram: Vec<u8>,
    pub windows: Vec<WindowState>,
    pub files: Vec<VirtualFile>,
    pub selected_file_idx: Option<usize>,
    pub drag_offset_x: i64,
    pub drag_offset_y: i64,
    pub mouse_x: i32,
    pub mouse_y: i32,
    pub active_drag_id: Option<u8>,
    pub active_resize_id: Option<u8>,
    pub paint_pixels: Vec<u8>,
    pub paint_width: i32,
    pub paint_height: i32,
    pub is_mouse_down: bool,
    pub cmd_buffer: Vec<char>,
    pub terminal_logs: Vec<Vec<char>>,
}

#[verifier::ext_equal]
pub struct WindowView {
    pub id: u8,
    pub title: Seq<char>,
    pub x: i32,
    pub y: i32,
    pub width: i32,
    pub height: i32,
    pub is_open: bool,
}

#[verifier::ext_equal]
pub struct FileView {
    pub name: Seq<char>,
    pub content: Seq<char>,
    pub is_image: bool,
}

/// The state of the desktop as values.
#[verifier::ext_equal]
pub struct KernelView {
    pub vram: Seq<u8>,
    pub windows: Seq<WindowView>,
    pub files: Seq<FileView>,
    pub selected_file_idx: Option<usize>,
    pub drag_offset_x: i64,
    pub drag_offset_y: i64,
    pub mouse_x: i32,
    pub mouse_y: i32,
    pub active_drag_id: Option<u8>,
    pub active_resize_id: Option<u8>,
    pub paint_pixels: Seq<u8>,
    pub paint_width: i32,
    pub paint_height: i32,
    pub is_mouse_down: bool,
    pub cmd_buffer: Seq<char>,
    pub terminal_logs: Seq<Seq<char>>,
}

impl View for WindowState {
    type V = WindowView;

    open spec fn view(&self) -> WindowView {
        WindowView {
            id: self.id,
            title: self.title@,
            x: self.x,
            y: self.y,
            width: self.width,
            height: self.height,
            is_open: self.is_open,
        }
    }
}

impl View for VirtualFile {
    type V = FileView;

    open spec fn view(&self) -> FileView {
        FileView { name: self.name@, content: self.content@, is_image: self.is_image }
    }
}

pub open spec fn windows_view(ws: Seq<WindowState>) -> Seq<WindowView> {
    ws.map_values(|w: WindowState| w@)
}

pub open spec fn files_view(fs: Seq<VirtualFile>) -> Seq<FileView> {
    fs.map_values(|f: VirtualFile| f@)
}

pub open spec fn lines_view(ls: Seq<Vec<char>>) -> Seq<Seq<char>> {
    ls.map_values(|l: Vec<char>| l@)
}

impl View for OSKernel {
    type V = KernelView;

    open spec fn view(&self) -> KernelView {
        KernelView {
            vram: self.vram@,
            windows: windows_view(self.windows@),
            files: files_view(self.files@),
            selected_file_idx: self.selected_file_idx,
            drag_offset_x: self.drag_offset_x,
            drag_offset_y: self.drag_offset_y,
            mouse_x: self.mouse_x,
            mouse_y: self.mouse_y,
            active_drag_id: self.active_drag_id,
            active_resize_id: self.active_resize_id,
            paint_pixels: self.paint_pixels@,
            paint_width: self.paint_width,
            paint_height: self.paint_height,
            is_mouse_down: self.is_mouse_down,
            cmd_buffer: self.cmd_buffer@,
            terminal_logs: lines_view(self.terminal_logs@),
        }
    }
}

/// A window id held by a drag or a resize in progress.
pub open spec fn valid_id(id: Option<u8>) -> bool {
    match id {
        Some(i) => 1 <= i <= 3,
        None => true,
    }
}

/// What holds of every state of the desktop:
/// - the frame buffer covers the screen and the canvas has its 400x400 cells,
///   of which a region of at most 400 by 400 is shown;
/// - the three windows are the terminal, the paint program and the file
///   manager, in this order, with ids 1, 2 and 3;
/// - a drag or resize in progress names one of them, and the grab offset is
///   within `2^33` (it is the difference of two `i32` values);
/// - the selected file exists;
/// - the command line holds at most `CMD_MAX` accepted characters.
pub open spec fn kernel_inv(s: KernelView) -> bool {
    &&& s.vram.len() == VRAM_SIZE
    &&& s.paint_pixels.len() == CANVAS_CELLS
    &&& 0 <= s.paint_width <= 400
    &&& 0 <= s.paint_height <= 400
    &&& s.windows.len() == 3
    &&& forall|i: int| 0 <= i < 3 ==> #[trigger] s.windows[i].id == i + 1
    &&& valid_id(s.active_drag_id)
    &&& valid_id(s.active_resize_id)
    &&& -0x2_0000_0000 <= s.drag_offset_x <= 0x2_0000_0000
    &&& -0x2_0000_0000 <= s.drag_offset_y <= 0x2_0000_0000
    &&& (s.selected_file_idx matches Some(i) ==> i < s.files.len())
    &&& s.cmd_buffer.len() <= CMD_MAX
    &&& forall|i: int| 0 <= i < s.cmd_buffer.len() ==> accepted_char(#[trigger] s.cmd_buffer[i])
}

pub open spec fn window_view(id: u8, title: Seq<char>, x: i32, y: i32, width: i32, height: i32) -> WindowView {
    WindowView { id, title, x, y, width, height, is_open: true }
}

/// The desktop as it starts.
pub open spec fn initial_view() -> KernelView {
    KernelView {
        vram: Seq::new(VRAM_SIZE as nat, |i: int| 0u8),
        windows: seq![
            window_view(1, "WasmOS Terminal v1.2"@, 60, 80, 420, 300),
            window_view(2, "VRAM Paint app Pro"@, 510, 80, 420, 350),
            window_view(3, "File Manager"@, 200, 410, 300, 240),
        ],
        files: seq![
            FileView { name: "README.TXT"@, content: "WELCOME TO WASMOS! THIS IS A TEXT FILE."@, is_image: false },
            FileView { name: "SYSTEM.TXT"@, content: "KERNEL V1.2 MEMORY SHARED VRAM ACTIVE."@, is_image: false },
            FileView { name: "ICON.BMP"@, content: "IMAGE_DATA"@, is_image: true },
        ],
        selected_file_idx: None,
        drag_offset_x: 0,
        drag_offset_y: 0,
        mouse_x: 0,
        mouse_y: 0,
        active_drag_id: None,
        active_resize_id: None,
        paint_pixels: Seq::new(CANVAS_CELLS as nat, |i: int| 255u8),
        paint_width: 200,
        paint_height: 200,
        is_mouse_down: false,
        cmd_buffer: seq![],
        terminal_logs: seq![
            "WASM OS [Version 1.2.720p]"@,
            "File application engine loaded successfully."@,
            "Type 'cat [filename]' or click files in File Manager."@,
        ],
    }
}

fn new_window(id: u8, title: &str, x: i32, y: i32, width: i32, height: i32) -> (w: WindowState)
    ensures
        w@ == window_view(id, title@, x, y, width, height),
{
    WindowState { id, title: chars_of(title), x, y, width, height, is_open: true }
}

fn new_file(name: &str, content: &str, is_image: bool) -> (f: VirtualFile)
    ensures
        f@ == (FileView { name: name@, content: content@, is_image }),
{
    VirtualFile { name: chars_of(name), content: chars_of(content), is_image }
}

impl OSKernel {
    pub open spec fn inv(&self) -> bool {
        kernel_inv(self@)
    }

    /// The desktop as it starts: three open windows, three files, a white
    /// canvas, an empty command line and a black frame buffer.
    pub fn new() -> (k: OSKernel)
        ensures
            k.inv(),
            k@ == initial_view(),
    {
        let mut windows: Vec<WindowState> = Vec::new();
        windows.push(new_window(1, "WasmOS Terminal v1.2", 60, 80, 420, 300));
        windows.push(new_window(2, "VRAM Paint app Pro", 510, 80, 420, 350));
        windows.push(new_window(3, "File Manager", 200, 410, 300, 240));
        let mut files: Vec<VirtualFile> = Vec::new();
        files.push(new_file("README.TXT", "WELCOME TO WASMOS! THIS IS A TEXT FILE.", false));
        files.push(new_file("SYSTEM.TXT", "KERNEL V1.2 MEMORY SHARED VRAM ACTIVE.", false));
        files.push(new_file("ICON.BMP", "IMAGE_DATA", true));
        let mut logs: Vec<Vec<char>> = Vec::new();
        logs.push(chars_of("WASM OS [Version 1.2.720p]"));
        logs.push(chars_of("File application engine loaded successfully."));
        logs.push(chars_of("Type 'cat [filename]' or click files in File Manager."));
        let k = OSKernel {
            vram: vec![0u8; VRAM_SIZE],
            windows,
            files,
            selected_file_idx: None,
            drag_offset_x: 0,
            drag_offset_y: 0,
            mouse_x: 0,
            mouse_y: 0,
            active_drag_id: None,
            active_resize_id: None,
            paint_pixels: vec![255u8; CANVAS_CELLS],
            paint_width: 200,
            paint_height: 200,
            is_mouse_down: false,
            cmd_buffer: Vec::new(),
            terminal_logs: logs,
        };
        assert(k@.vram =~= initial_view().vram);
        assert(k@.paint_pixels =~= initial_view().paint_pixels);
        assert(k@.windows =~= initial_view().windows);
        assert(k@.files =~= initial_view().files);
        assert(k@.terminal_logs =~= initial_view().terminal_logs);
        assert(k@.cmd_buffer =~= Seq::<char>::empty());
        k
    }
}

} // verus!
