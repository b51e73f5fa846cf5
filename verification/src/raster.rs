//! The frame buffer and the shapes drawn into it.
//!
//! The frame buffer holds `WIDTH * HEIGHT` pixels, row by row, four bytes
//! each (red, green, blue, alpha). Every drawing operation is described by a
//! `Shape`, which gives the colour it paints at each screen position (or
//! none); `paint` is the frame buffer after the shape has been drawn.
use vstd::prelude::*;
use crate::font::{font_pattern, get_font_pattern};

verus! {

pub const WIDTH: usize = 1280;

pub const HEIGHT: usize = 720;

pub const VRAM_SIZE: usize = WIDTH * HEIGHT * 4;

/// An opaque colour.
#[derive(Clone, Copy, PartialEq, Eq, Structural, Debug)]
pub struct Rgb {
    pub r: u8,
    pub g: u8,
    pub b: u8,
}

pub open spec fn rgb(r: u8, g: u8, b: u8) -> Rgb {
    Rgb { r, g, b }
}

/// Byte `k` (0 red, 1 green, 2 blue, 3 alpha) of a pixel painted with `c`.
pub open spec fn channel(c: Rgb, k: int) -> u8 {
    if k == 0 {
        c.r
    } else if k == 1 {
        c.g
    } else if k == 2 {
        c.b
    } else {
        255
    }
}

pub open spec fn on_screen(x: int, y: int) -> bool {
    0 <= x < WIDTH && 0 <= y < HEIGHT
}

/// Column of the pixel that frame-buffer byte `i` belongs to.
pub open spec fn pixel_x(i: int) -> int {
    (i / 4) % (WIDTH as int)
}

/// Row of the pixel that frame-buffer byte `i` belongs to.
pub open spec fn pixel_y(i: int) -> int {
    (i / 4) / (WIDTH as int)
}

/// Index of the first byte of the pixel at `(x, y)`.
pub open spec fn pixel_index(x: int, y: int) -> int {
    (y * WIDTH + x) * 4
}

/// Whether cell `(dx, dy)` of the 6x10 box of a glyph scaled by two is lit.
pub open spec fn glyph_on(c: char, dx: int, dy: int) -> bool {
    0 <= dx < 6 && 0 <= dy < 10 && font_pattern(c)[(dy / 2) * 3 + dx / 2] == 1
}

/// Whether `(dx, dy)` lies in the lower-right grip of a window: a
/// triangle of a 10x10 box, every third diagonal.
pub open spec fn grip_on(dx: int, dy: int) -> bool {
    0 <= dx < 10 && dx <= dy < 10 && (dx + dy) % 3 == 0
}

/// The colour of the mouse arrow at `(dx, dy)` from its tip, if any.
pub open spec fn cursor_color(dx: int, dy: int) -> Option<Rgb> {
    if 0 <= dy < 18 && 0 <= dx < dy {
        if dx == 0 || dx == dy - 1 || dy == 17 {
            Some(rgb(0, 0, 0))
        } else {
            Some(rgb(255, 255, 255))
        }
    } else {
        None
    }
}

/// A grey level of the drawing canvas as an opaque colour.
pub open spec fn gray(v: u8) -> Rgb {
    rgb(v, v, v)
}

/// A drawing operation.
///
/// `Glyph`, `Grip` and `Cursor` carry how far they have been drawn
/// (`blocks` cells of the glyph; the grip and the arrow in column-major and
/// row-major order up to `(lx, ly)`); the whole shape is `glyph`, `grip`
/// and `cursor` below.
pub enum Shape {
    /// The pixels `x0 <= x < x1`, `y0 <= y < y1`.
    Rect { x0: int, y0: int, x1: int, y1: int, color: Rgb },
    /// A character scaled by two with its top-left corner at `(x, y)`.
    Glyph { x: int, y: int, c: char, blocks: int, color: Rgb },
    /// A line of characters, nine pixels apart.
    Text { x: int, y: int, text: Seq<char>, color: Rgb },
    /// The resize grip of a window.
    Grip { x: int, y: int, lx: int, ly: int, color: Rgb },
    /// The mouse arrow with its tip at `(x, y)`.
    Cursor { x: int, y: int, ly: int, lx: int },
    /// The part `x0 <= x < x1`, `y0 <= y < y1` of the drawing canvas whose
    /// top-left corner is at `(ox, oy)`: canvas cells (a `pw` by `ph` region of
    /// a 400-wide grey image) where there is one, a light grey elsewhere.
    Canvas { ox: int, oy: int, x0: int, y0: int, x1: int, y1: int, pixels: Seq<u8>, pw: int, ph: int },
}

pub open spec fn rect(x0: int, y0: int, x1: int, y1: int, color: Rgb) -> Shape {
    Shape::Rect { x0, y0, x1, y1, color }
}

pub open spec fn glyph(x: int, y: int, c: char, color: Rgb) -> Shape {
    Shape::Glyph { x, y, c, blocks: 15, color }
}

pub open spec fn text(x: int, y: int, t: Seq<char>, color: Rgb) -> Shape {
    Shape::Text { x, y, text: t, color }
}

pub open spec fn grip(x: int, y: int, color: Rgb) -> Shape {
    Shape::Grip { x, y, lx: 10, ly: 0, color }
}

pub open spec fn cursor(x: int, y: int) -> Shape {
    Shape::Cursor { x, y, ly: 18, lx: 0 }
}

/// The colour of the canvas at `(dx, dy)` from its top-left corner.
pub open spec fn canvas_color(pixels: Seq<u8>, pw: int, ph: int, dx: int, dy: int) -> Rgb {
    if 0 <= dx < pw && 0 <= dy < ph {
        gray(pixels[dy * 400 + dx])
    } else {
        rgb(0xaa, 0xaa, 0xaa)
    }
}

/// The colour `s` paints at `(x, y)`, or `None` where it paints nothing.
pub open spec fn shape_color(s: Shape, x: int, y: int) -> Option<Rgb> {
    match s {
        Shape::Rect { x0, y0, x1, y1, color } => {
            if x0 <= x < x1 && y0 <= y < y1 {
                Some(color)
            } else {
                None
            }
        },
        Shape::Glyph { x: gx, y: gy, c, blocks, color } => {
            let dx = x - gx;
            let dy = y - gy;
            if glyph_on(c, dx, dy) && (dy / 2) * 3 + dx / 2 < blocks {
                Some(color)
            } else {
                None
            }
        },
        Shape::Text { x: tx, y: ty, text, color } => {
            let dx = x - tx;
            if 0 <= dx && dx / 9 < text.len() && glyph_on(text[dx / 9], dx % 9, y - ty) {
                Some(color)
            } else {
                None
            }
        },
        Shape::Grip { x: gx, y: gy, lx, ly, color } => {
            let dx = x - gx;
            let dy = y - gy;
            if grip_on(dx, dy) && (dx < lx || (dx == lx && dy < ly)) {
                Some(color)
            } else {
                None
            }
        },
        Shape::Cursor { x: cx, y: cy, ly, lx } => {
            let dx = x - cx;
            let dy = y - cy;
            if dy < ly || (dy == ly && dx < lx) {
                cursor_color(dx, dy)
            } else {
                None
            }
        },
        Shape::Canvas { ox, oy, x0, y0, x1, y1, pixels, pw, ph } => {
            if x0 <= x < x1 && y0 <= y < y1 {
                Some(canvas_color(pixels, pw, ph, x - ox, y - oy))
            } else {
                None
            }
        },
    }
}

/// Byte `i` of a frame buffer after `s` has been drawn over byte `old`.
pub open spec fn paint_byte(old: u8, i: int, s: Shape) -> u8 {
    if 0 <= i < VRAM_SIZE {
        match shape_color(s, pixel_x(i), pixel_y(i)) {
            Some(c) => channel(c, i % 4),
            None => old,
        }
    } else {
        old
    }
}

/// The frame buffer `v` after `s` has been drawn into it.
pub open spec fn paint(v: Seq<u8>, s: Shape) -> Seq<u8> {
    Seq::new(v.len(), |i: int| paint_byte(v[i], i, s))
}

/// The frame buffer `v` after the shapes of `ops` have been drawn in order.
pub open spec fn paint_all(v: Seq<u8>, ops: Seq<Shape>) -> Seq<u8>
    decreases ops.len(),
{
    if ops.len() == 0 {
        v
    } else {
        paint(paint_all(v, ops.drop_last()), ops.last())
    }
}

/// Byte `i` of the frame buffer belongs to the pixel `pixel_index`
/// names.
pub proof fn lemma_pixel_of_index(i: int)
    requires
        0 <= i < VRAM_SIZE,
    ensures
        on_screen(pixel_x(i), pixel_y(i)),
        pixel_index(pixel_x(i), pixel_y(i)) + i % 4 == i,
{
}

/// The bytes of the pixel at `(x, y)` are those whose pixel is `(x, y)`.
pub proof fn lemma_index_of_pixel(x: int, y: int, i: int)
    requires
        on_screen(x, y),
        0 <= i < VRAM_SIZE,
    ensures
        (pixel_x(i) == x && pixel_y(i) == y) <==> (pixel_index(x, y) <= i < pixel_index(x, y) + 4),
        pixel_index(x, y) + 4 <= VRAM_SIZE,
{
}

/// Coordinates handed to the drawing functions stay well inside `i64`:
/// every coordinate the desktop computes comes from `i32` values and a few
/// hundred pixels of offsets.
pub open spec fn coord_ok(v: int) -> bool {
    -0x100_0000_0000 <= v <= 0x100_0000_0000
}

/// A pixel on the screen lies inside the frame buffer.
pub proof fn lemma_pixel_fits(x: int, y: int)
    requires
        on_screen(x, y),
    ensures
        pixel_index(x, y) + 4 <= VRAM_SIZE,
{
}

/// Drawing a shape keeps the length of the frame buffer.
pub proof fn lemma_paint_len(v: Seq<u8>, s: Shape)
    ensures
        paint(v, s).len() == v.len(),
{
}

/// Drawing only depends on the colours a shape gives on the screen.
pub proof fn lemma_paint_ext(v: Seq<u8>, s1: Shape, s2: Shape)
    requires
        forall|x: int, y: int| on_screen(x, y) ==> #[trigger] shape_color(s1, x, y) == shape_color(s2, x, y),
    ensures
        paint(v, s1) == paint(v, s2),
{
    assert forall|i: int| 0 <= i < v.len() implies paint(v, s1)[i] == paint(v, s2)[i] by {
        if 0 <= i < VRAM_SIZE {
            lemma_pixel_of_index(i);
            assert(shape_color(s1, pixel_x(i), pixel_y(i)) == shape_color(s2, pixel_x(i), pixel_y(i)));
        }
    }
    assert(paint(v, s1) =~= paint(v, s2));
}

/// A shape that paints nothing on the screen leaves the frame buffer as it was.
pub proof fn lemma_paint_none(v: Seq<u8>, s: Shape)
    requires
        forall|x: int, y: int| on_screen(x, y) ==> #[trigger] shape_color(s, x, y) is None,
    ensures
        paint(v, s) == v,
{
    assert forall|i: int| 0 <= i < v.len() implies paint(v, s)[i] == v[i] by {
        if 0 <= i < VRAM_SIZE {
            lemma_pixel_of_index(i);
            assert(shape_color(s, pixel_x(i), pixel_y(i)) is None);
        }
    }
    assert(paint(v, s) =~= v);
}

/// Drawing `s2` over `s1` is drawing `s3` when, at every screen position,
/// `s3` gives the colour of `s2` where `s2` paints and that of `s1` elsewhere.
pub proof fn lemma_paint_paint(v: Seq<u8>, s1: Shape, s2: Shape, s3: Shape)
    requires
        forall|x: int, y: int|
            on_screen(x, y) ==> #[trigger] shape_color(s3, x, y) == (if shape_color(s2, x, y) is Some {
                shape_color(s2, x, y)
            } else {
                shape_color(s1, x, y)
            }),
    ensures
        paint(paint(v, s1), s2) == paint(v, s3),
{
    assert forall|i: int| 0 <= i < v.len() implies paint(paint(v, s1), s2)[i] == paint(v, s3)[i] by {
        if 0 <= i < VRAM_SIZE {
            lemma_pixel_of_index(i);
            assert(shape_color(s3, pixel_x(i), pixel_y(i)) == (if shape_color(s2, pixel_x(i), pixel_y(i)) is Some {
                shape_color(s2, pixel_x(i), pixel_y(i))
            } else {
                shape_color(s1, pixel_x(i), pixel_y(i))
            }));
        }
    }
    assert(paint(paint(v, s1), s2) =~= paint(v, s3));
}

/// Drawing one more shape at the end of a list.
pub proof fn lemma_paint_all_push(v: Seq<u8>, ops: Seq<Shape>, s: Shape)
    ensures
        paint_all(v, ops.push(s)) == paint(paint_all(v, ops), s),
{
    assert(ops.push(s).drop_last() =~= ops);
}

/// Drawing two lists one after the other is drawing their concatenation.
pub proof fn lemma_paint_all_concat(v: Seq<u8>, a: Seq<Shape>, b: Seq<Shape>)
    ensures
        paint_all(v, a + b) == paint_all(paint_all(v, a), b),
    decreases b.len(),
{
    if b.len() == 0 {
        assert(a + b =~= a);
    } else {
        assert((a + b).drop_last() =~= a + b.drop_last());
        assert((a + b).last() == b.last());
        lemma_paint_all_concat(v, a, b.drop_last());
    }
}

/// Drawing keeps the length of the frame buffer.
pub proof fn lemma_paint_all_len(v: Seq<u8>, ops: Seq<Shape>)
    ensures
        paint_all(v, ops).len() == v.len(),
    decreases ops.len(),
{
    if ops.len() > 0 {
        lemma_paint_all_len(v, ops.drop_last());
    }
}

/// Colours the pixel at `(x, y)`; a position off the screen is ignored.
pub fn set_pixel(vram: &mut Vec<u8>, x: i64, y: i64, color: Rgb)
    requires
        on_screen(x as int, y as int) ==> pixel_index(x as int, y as int) + 4 <= old(vram).len(),
    ensures
        final(vram)@ == paint(old(vram)@, rect(x as int, y as int, x + 1, y + 1, color)),
        !on_screen(x as int, y as int) ==> final(vram)@ == old(vram)@,
{
    if x < 0 || x >= WIDTH as i64 || y < 0 || y >= HEIGHT as i64 {
        proof {
            lemma_paint_none(vram@, rect(x as int, y as int, x + 1, y + 1, color));
        }
        return;
    }
    let ghost v0 = vram@;
    let idx: usize = ((y as usize) * WIDTH + (x as usize)) * 4;
    vram.set(idx, color.r);
    vram.set(idx + 1, color.g);
    vram.set(idx + 2, color.b);
    vram.set(idx + 3, 255);
    proof {
        let s = rect(x as int, y as int, x + 1, y + 1, color);
        assert forall|i: int| 0 <= i < v0.len() implies vram@[i] == paint(v0, s)[i] by {
            if 0 <= i < VRAM_SIZE {
                lemma_index_of_pixel(x as int, y as int, i);
                lemma_pixel_of_index(i);
            }
        }
        assert(vram@ =~= paint(v0, s));
    }
}

/// Fills the pixels `x0 <= x < x1`, `y0 <= y < y1` with `color`.
pub fn fill_rect(vram: &mut Vec<u8>, x0: i64, y0: i64, x1: i64, y1: i64, color: Rgb)
    requires
        old(vram).len() >= VRAM_SIZE,
    ensures
        final(vram)@ == paint(old(vram)@, rect(x0 as int, y0 as int, x1 as int, y1 as int, color)),
{
    let ghost v0 = vram@;
    let cx0: i64 = if x0 < 0 { 0 } else { x0 };
    let cy0: i64 = if y0 < 0 { 0 } else { y0 };
    let cx1: i64 = if x1 > WIDTH as i64 { WIDTH as i64 } else { x1 };
    let cy1: i64 = if y1 > HEIGHT as i64 { HEIGHT as i64 } else { y1 };
    proof {
        lemma_paint_ext(v0, rect(x0 as int, y0 as int, x1 as int, y1 as int, color),
            rect(cx0 as int, cy0 as int, cx1 as int, cy1 as int, color));
    }
    if cx0 >= cx1 || cy0 >= cy1 {
        proof {
            lemma_paint_none(v0, rect(cx0 as int, cy0 as int, cx1 as int, cy1 as int, color));
        }
        return;
    }
    let mut py: i64 = cy0;
    proof {
        lemma_paint_none(v0, rect(cx0 as int, cy0 as int, cx1 as int, cy0 as int, color));
    }
    while py < cy1
        invariant
            0 <= cx0 < cx1 <= WIDTH,
            0 <= cy0 <= py <= cy1,
            cy1 <= HEIGHT,
            v0.len() >= VRAM_SIZE,
            vram@ == paint(v0, rect(cx0 as int, cy0 as int, cx1 as int, py as int, color)),
        decreases cy1 - py,
    {
        let ghost done = paint(v0, rect(cx0 as int, cy0 as int, cx1 as int, py as int, color));
        let mut px: i64 = cx0;
        proof {
            lemma_paint_none(done, rect(cx0 as int, py as int, cx0 as int, py + 1, color));
        }
        while px < cx1
            invariant
                0 <= cx0 <= px <= cx1,
                cx1 <= WIDTH,
                0 <= py < HEIGHT,
                done.len() >= VRAM_SIZE,
                vram@ == paint(done, rect(cx0 as int, py as int, px as int, py + 1, color)),
            decreases cx1 - px,
        {
            proof {
                lemma_paint_len(done, rect(cx0 as int, py as int, px as int, py + 1, color));
                lemma_index_of_pixel(px as int, py as int, 0);
            }
            set_pixel(vram, px, py, color);
            proof {
                lemma_paint_paint(done, rect(cx0 as int, py as int, px as int, py + 1, color),
                    rect(px as int, py as int, px + 1, py + 1, color),
                    rect(cx0 as int, py as int, px + 1, py + 1, color));
            }
            px = px + 1;
        }
        proof {
            lemma_paint_paint(v0, rect(cx0 as int, cy0 as int, cx1 as int, py as int, color),
                rect(cx0 as int, py as int, cx1 as int, py + 1, color),
                rect(cx0 as int, cy0 as int, cx1 as int, py + 1, color));
        }
        py = py + 1;
    }
}

/// Fills the whole screen with `color`.
pub fn clear_vram(vram: &mut Vec<u8>, color: Rgb)
    requires
        old(vram).len() >= VRAM_SIZE,
    ensures
        final(vram)@ == paint(old(vram)@, rect(0, 0, WIDTH as int, HEIGHT as int, color)),
{
    fill_rect(vram, 0, 0, WIDTH as i64, HEIGHT as i64, color);
}

/// Draws character `c`, scaled by two, with its top-left corner at `(x, y)`.
pub fn draw_char_scaled(vram: &mut Vec<u8>, x: i64, y: i64, c: char, color: Rgb)
    requires
        old(vram).len() >= VRAM_SIZE,
        coord_ok(x as int),
        coord_ok(y as int),
    ensures
        final(vram)@ == paint(old(vram)@, glyph(x as int, y as int, c, color)),
{
    let ghost v0 = vram@;
    let pattern = get_font_pattern(c);
    proof {
        lemma_paint_none(v0, Shape::Glyph { x: x as int, y: y as int, c, blocks: 0, color });
    }
    let mut row: usize = 0;
    while row < 5
        invariant
            row <= 5,
            coord_ok(x as int),
            coord_ok(y as int),
            v0.len() >= VRAM_SIZE,
            pattern@ == font_pattern(c),
            vram@ == paint(v0, Shape::Glyph { x: x as int, y: y as int, c, blocks: row * 3, color }),
        decreases 5 - row,
    {
        let mut col: usize = 0;
        while col < 3
            invariant
                row < 5,
                col <= 3,
                coord_ok(x as int),
                coord_ok(y as int),
                v0.len() >= VRAM_SIZE,
                pattern@ == font_pattern(c),
                vram@ == paint(v0, Shape::Glyph { x: x as int, y: y as int, c, blocks: row * 3 + col, color }),
            decreases 3 - col,
        {
            let ghost before = Shape::Glyph { x: x as int, y: y as int, c, blocks: row * 3 + col, color };
            let ghost after = Shape::Glyph { x: x as int, y: y as int, c, blocks: row * 3 + col + 1, color };
            if pattern[row * 3 + col] == 1 {
                let bx: i64 = x + 2 * (col as i64);
                let by: i64 = y + 2 * (row as i64);
                proof {
                    lemma_paint_len(v0, before);
                }
                fill_rect(vram, bx, by, bx + 2, by + 2, color);
                proof {
                    lemma_paint_paint(v0, before, rect(bx as int, by as int, bx + 2, by + 2, color), after);
                }
            } else {
                proof {
                    lemma_paint_ext(v0, before, after);
                }
            }
            col = col + 1;
        }
        row = row + 1;
    }
}

/// Draws `text` on one line, scaled by two, nine pixels per character.
pub fn draw_string_scaled(vram: &mut Vec<u8>, x: i64, y: i64, text: &Vec<char>, color: Rgb)
    requires
        old(vram).len() >= VRAM_SIZE,
        coord_ok(x as int),
        coord_ok(y as int),
    ensures
        final(vram)@ == paint(old(vram)@, Shape::Text { x: x as int, y: y as int, text: text@, color }),
{
    let ghost v0 = vram@;
    let mut i: usize = 0;
    let mut cur_x: i64 = x;
    proof {
        lemma_paint_none(v0, Shape::Text { x: x as int, y: y as int, text: text@.take(0), color });
    }
    while i < text.len() && cur_x < WIDTH as i64
        invariant
            i <= text.len(),
            cur_x == x + 9 * i,
            coord_ok(x as int),
            coord_ok(y as int),
            v0.len() >= VRAM_SIZE,
            vram@ == paint(v0, Shape::Text { x: x as int, y: y as int, text: text@.take(i as int), color }),
        decreases text.len() - i,
    {
        let ghost before = Shape::Text { x: x as int, y: y as int, text: text@.take(i as int), color };
        let ghost after = Shape::Text { x: x as int, y: y as int, text: text@.take(i + 1), color };
        proof {
            lemma_paint_len(v0, before);
        }
        draw_char_scaled(vram, cur_x, y, text[i], color);
        proof {
            let g = glyph(cur_x as int, y as int, text@[i as int], color);
            assert forall|px: int, py: int| on_screen(px, py) implies #[trigger] shape_color(after, px, py) == (if shape_color(g, px, py) is Some {
                shape_color(g, px, py)
            } else {
                shape_color(before, px, py)
            }) by {
                let dx = px - x;
                if 0 <= dx {
                    if dx / 9 < i {
                        assert(text@.take(i + 1)[dx / 9] == text@.take(i as int)[dx / 9]);
                    } else if dx / 9 == i {
                        assert(text@.take(i + 1)[dx / 9] == text@[i as int]);
                        assert(px - cur_x == dx % 9);
                    }
                }
            }
            lemma_paint_paint(v0, before, g, after);
        }
        i = i + 1;
        cur_x = cur_x + 9;
    }
    proof {
        let whole = Shape::Text { x: x as int, y: y as int, text: text@, color };
        if i == text.len() {
            assert(text@.take(i as int) =~= text@);
        } else {
            let part = Shape::Text { x: x as int, y: y as int, text: text@.take(i as int), color };
            assert forall|px: int, py: int| on_screen(px, py) implies #[trigger] shape_color(part, px, py) == shape_color(whole, px, py) by {
                let dx = px - x;
                if 0 <= dx {
                    assert(dx / 9 < i);
                    assert(text@.take(i as int)[dx / 9] == text@[dx / 9]);
                }
            }
            lemma_paint_ext(v0, part, whole);
        }
    }
}

/// Draws the resize grip of a window with its top-left corner at `(x, y)`.
pub fn draw_grip(vram: &mut Vec<u8>, x: i64, y: i64, color: Rgb)
    requires
        old(vram).len() >= VRAM_SIZE,
        coord_ok(x as int),
        coord_ok(y as int),
    ensures
        final(vram)@ == paint(old(vram)@, grip(x as int, y as int, color)),
{
    let ghost v0 = vram@;
    proof {
        lemma_paint_none(v0, Shape::Grip { x: x as int, y: y as int, lx: 0, ly: 0, color });
    }
    let mut i: i64 = 0;
    while i < 10
        invariant
            0 <= i <= 10,
            coord_ok(x as int),
            coord_ok(y as int),
            v0.len() >= VRAM_SIZE,
            vram@ == paint(v0, Shape::Grip { x: x as int, y: y as int, lx: i as int, ly: 0, color }),
        decreases 10 - i,
    {
        proof {
            lemma_paint_ext(v0, Shape::Grip { x: x as int, y: y as int, lx: i as int, ly: 0, color },
                Shape::Grip { x: x as int, y: y as int, lx: i as int, ly: i as int, color });
        }
        let mut j: i64 = i;
        while j < 10
            invariant
                0 <= i < 10,
                i <= j <= 10,
                coord_ok(x as int),
                coord_ok(y as int),
                v0.len() >= VRAM_SIZE,
                vram@ == paint(v0, Shape::Grip { x: x as int, y: y as int, lx: i as int, ly: j as int, color }),
            decreases 10 - j,
        {
            let ghost before = Shape::Grip { x: x as int, y: y as int, lx: i as int, ly: j as int, color };
            let ghost after = Shape::Grip { x: x as int, y: y as int, lx: i as int, ly: j + 1, color };
            if (i + j) % 3 == 0 {
                proof {
                    lemma_paint_len(v0, before);
                    if on_screen(x + i, y + j) {
                        lemma_pixel_fits(x + i, y + j);
                    }
                }
                set_pixel(vram, x + i, y + j, color);
                proof {
                    lemma_paint_paint(v0, before, rect(x + i, y + j, x + i + 1, y + j + 1, color), after);
                }
            } else {
                proof {
                    lemma_paint_ext(v0, before, after);
                }
            }
            j = j + 1;
        }
        proof {
            lemma_paint_ext(v0, Shape::Grip { x: x as int, y: y as int, lx: i as int, ly: 10, color },
                Shape::Grip { x: x as int, y: y as int, lx: i + 1, ly: 0, color });
        }
        i = i + 1;
    }
}

/// Draws the mouse arrow with its tip at `(mx, my)`.
pub fn draw_mouse_cursor_hd(vram: &mut Vec<u8>, mx: i64, my: i64)
    requires
        old(vram).len() >= VRAM_SIZE,
        coord_ok(mx as int),
        coord_ok(my as int),
    ensures
        final(vram)@ == paint(old(vram)@, cursor(mx as int, my as int)),
{
    let ghost v0 = vram@;
    proof {
        lemma_paint_none(v0, Shape::Cursor { x: mx as int, y: my as int, ly: 0, lx: 0 });
    }
    let mut dy: i64 = 0;
    while dy < 18
        invariant
            0 <= dy <= 18,
            coord_ok(mx as int),
            coord_ok(my as int),
            v0.len() >= VRAM_SIZE,
            vram@ == paint(v0, Shape::Cursor { x: mx as int, y: my as int, ly: dy as int, lx: 0 }),
        decreases 18 - dy,
    {
        let mut dx: i64 = 0;
        while dx < dy
            invariant
                0 <= dy < 18,
                0 <= dx <= dy,
                coord_ok(mx as int),
                coord_ok(my as int),
                v0.len() >= VRAM_SIZE,
                vram@ == paint(v0, Shape::Cursor { x: mx as int, y: my as int, ly: dy as int, lx: dx as int }),
            decreases dy - dx,
        {
            let ghost before = Shape::Cursor { x: mx as int, y: my as int, ly: dy as int, lx: dx as int };
            let ghost after = Shape::Cursor { x: mx as int, y: my as int, ly: dy as int, lx: dx + 1 };
            let color = if dx == 0 || dx == dy - 1 || dy == 17 {
                Rgb { r: 0, g: 0, b: 0 }
            } else {
                Rgb { r: 255, g: 255, b: 255 }
            };
            proof {
                lemma_paint_len(v0, before);
                if on_screen(mx + dx, my + dy) {
                    lemma_pixel_fits(mx + dx, my + dy);
                }
            }
            set_pixel(vram, mx + dx, my + dy, color);
            proof {
                lemma_paint_paint(v0, before, rect(mx + dx, my + dy, mx + dx + 1, my + dy + 1, color), after);
            }
            dx = dx + 1;
        }
        proof {
            lemma_paint_ext(v0, Shape::Cursor { x: mx as int, y: my as int, ly: dy as int, lx: dy as int },
                Shape::Cursor { x: mx as int, y: my as int, ly: dy + 1, lx: 0 });
        }
        dy = dy + 1;
    }
}

/// Draws the part `ox <= x < x1`, `oy <= y < y1` of the drawing canvas whose
/// top-left corner is at `(ox, oy)`: a cell of `pixels` (400 cells a row) in
/// grey where `x - ox < pw` and `y - oy < ph`, a light grey elsewhere.
pub fn blit_canvas(vram: &mut Vec<u8>, ox: i64, oy: i64, x1: i64, y1: i64, pixels: &Vec<u8>, pw: i32, ph: i32)
    requires
        old(vram).len() >= VRAM_SIZE,
        coord_ok(ox as int),
        coord_ok(oy as int),
        0 <= pw <= 400,
        0 <= ph,
        ph * 400 <= pixels.len(),
    ensures
        final(vram)@ == paint(old(vram)@, Shape::Canvas {
            ox: ox as int, oy: oy as int, x0: ox as int, y0: oy as int, x1: x1 as int, y1: y1 as int,
            pixels: pixels@, pw: pw as int, ph: ph as int,
        }),
{
    let ghost v0 = vram@;
    let ghost whole = Shape::Canvas {
        ox: ox as int, oy: oy as int, x0: ox as int, y0: oy as int, x1: x1 as int, y1: y1 as int,
        pixels: pixels@, pw: pw as int, ph: ph as int,
    };
    let cx0: i64 = if ox < 0 { 0 } else { ox };
    let cy0: i64 = if oy < 0 { 0 } else { oy };
    let cx1: i64 = if x1 > WIDTH as i64 { WIDTH as i64 } else { x1 };
    let cy1: i64 = if y1 > HEIGHT as i64 { HEIGHT as i64 } else { y1 };
    let ghost clipped = Shape::Canvas {
        ox: ox as int, oy: oy as int, x0: cx0 as int, y0: cy0 as int, x1: cx1 as int, y1: cy1 as int,
        pixels: pixels@, pw: pw as int, ph: ph as int,
    };
    proof {
        lemma_paint_ext(v0, whole, clipped);
    }
    if cx0 >= cx1 || cy0 >= cy1 {
        proof {
            lemma_paint_none(v0, clipped);
        }
        return;
    }
    let mut py: i64 = cy0;
    proof {
        lemma_paint_none(v0, Shape::Canvas {
            ox: ox as int, oy: oy as int, x0: cx0 as int, y0: cy0 as int, x1: cx1 as int, y1: cy0 as int,
            pixels: pixels@, pw: pw as int, ph: ph as int,
        });
    }
    while py < cy1
        invariant
            0 <= cx0 < cx1 <= WIDTH,
            0 <= cy0 <= py <= cy1,
            cy1 <= HEIGHT,
            ox <= cx0,
            oy <= cy0,
            coord_ok(ox as int),
            coord_ok(oy as int),
            0 <= pw <= 400,
            0 <= ph,
            ph * 400 <= pixels.len(),
            v0.len() >= VRAM_SIZE,
            vram@ == paint(v0, Shape::Canvas {
                ox: ox as int, oy: oy as int, x0: cx0 as int, y0: cy0 as int, x1: cx1 as int, y1: py as int,
                pixels: pixels@, pw: pw as int, ph: ph as int,
            }),
        decreases cy1 - py,
    {
        let ghost done = paint(v0, Shape::Canvas {
            ox: ox as int, oy: oy as int, x0: cx0 as int, y0: cy0 as int, x1: cx1 as int, y1: py as int,
            pixels: pixels@, pw: pw as int, ph: ph as int,
        });
        proof {
            lemma_paint_none(done, Shape::Canvas {
                ox: ox as int, oy: oy as int, x0: cx0 as int, y0: py as int, x1: cx0 as int, y1: py + 1,
                pixels: pixels@, pw: pw as int, ph: ph as int,
            });
        }
        let mut px: i64 = cx0;
        while px < cx1
            invariant
                0 <= cx0 <= px <= cx1,
                cx1 <= WIDTH,
                0 <= py < HEIGHT,
                ox <= cx0,
                oy <= py,
                coord_ok(ox as int),
                coord_ok(oy as int),
                0 <= pw <= 400,
                0 <= ph,
                ph * 400 <= pixels.len(),
                done.len() >= VRAM_SIZE,
                vram@ == paint(done, Shape::Canvas {
                    ox: ox as int, oy: oy as int, x0: cx0 as int, y0: py as int, x1: px as int, y1: py + 1,
                    pixels: pixels@, pw: pw as int, ph: ph as int,
                }),
            decreases cx1 - px,
        {
            let ghost before = Shape::Canvas {
                ox: ox as int, oy: oy as int, x0: cx0 as int, y0: py as int, x1: px as int, y1: py + 1,
                pixels: pixels@, pw: pw as int, ph: ph as int,
            };
            let ghost after = Shape::Canvas {
                ox: ox as int, oy: oy as int, x0: cx0 as int, y0: py as int, x1: px + 1, y1: py + 1,
                pixels: pixels@, pw: pw as int, ph: ph as int,
            };
            let dx: i64 = px - ox;
            let dy: i64 = py - oy;
            let color = if dx < pw as i64 && dy < ph as i64 {
                let v = pixels[(dy * 400 + dx) as usize];
                Rgb { r: v, g: v, b: v }
            } else {
                Rgb { r: 0xaa, g: 0xaa, b: 0xaa }
            };
            assert(color == canvas_color(pixels@, pw as int, ph as int, dx as int, dy as int));
            proof {
                lemma_paint_len(done, before);
                lemma_pixel_fits(px as int, py as int);
            }
            set_pixel(vram, px, py, color);
            proof {
                lemma_paint_paint(done, before, rect(px as int, py as int, px + 1, py + 1, color), after);
            }
            px = px + 1;
        }
        proof {
            lemma_paint_paint(v0, Shape::Canvas {
                ox: ox as int, oy: oy as int, x0: cx0 as int, y0: cy0 as int, x1: cx1 as int, y1: py as int,
                pixels: pixels@, pw: pw as int, ph: ph as int,
            }, Shape::Canvas {
                ox: ox as int, oy: oy as int, x0: cx0 as int, y0: py as int, x1: cx1 as int, y1: py + 1,
                pixels: pixels@, pw: pw as int, ph: ph as int,
            }, Shape::Canvas {
                ox: ox as int, oy: oy as int, x0: cx0 as int, y0: cy0 as int, x1: cx1 as int, y1: py + 1,
                pixels: pixels@, pw: pw as int, ph: ph as int,
            });
        }
        py = py + 1;
    }
}

} // verus!
