//! Pixel-level drawing on RGBA buffers: alpha blending, dots, Bresenham
//! lines, rectangle outlines, the text placeholder, number badges and the
//! mosaic filter.
use crate::annotate::{Color, Point};
use crate::api::{rect_check_fits, rect_inside, rgba_len, CapturedImage, Rect};
use crate::error::{Result, WinScreenError};
use vstd::prelude::*;
use vstd::string::StrSliceExecFns;

verus! {

/// Whether `(x, y)` is a pixel of a `width` x `height` image.
pub open spec fn in_image(width: u32, height: u32, x: int, y: int) -> bool {
    0 <= x < width && 0 <= y < height
}

/// Offset of the first byte of pixel `(x, y)`.
pub open spec fn pixel_off(width: u32, x: int, y: int) -> int {
    (y * width + x) * 4
}

/// One channel of `color` laid over `old` with opacity `a` out of 255.
pub open spec fn blend(c: u8, a: u8, old: u8) -> u8 {
    ((c * a + old * (255 - a)) / 255) as u8
}

/// The buffer with the pixel at byte offset `off` blended with `color`; the
/// alpha byte becomes opaque.
pub open spec fn blend_at(img: Seq<u8>, off: int, color: Color) -> Seq<u8> {
    img.update(off, blend(color.r, color.a, img[off])).update(
        off + 1,
        blend(color.g, color.a, img[off + 1]),
    ).update(off + 2, blend(color.b, color.a, img[off + 2])).update(off + 3, 255u8)
}

/// Blends `color` into pixel `(x, y)`; a pixel outside the image is skipped.
pub open spec fn put_pixel(img: Seq<u8>, width: u32, height: u32, x: int, y: int, color: Color) -> Seq<
    u8,
> {
    if in_image(width, height, x, y) {
        blend_at(img, pixel_off(width, x, y), color)
    } else {
        img
    }
}

/// Blends `color` into pixels `xs..xe` of row `y`, left to right.
pub open spec fn row_spec(
    img: Seq<u8>,
    width: u32,
    height: u32,
    xs: int,
    xe: int,
    y: int,
    color: Color,
) -> Seq<u8>
    decreases xe - xs,
{
    if xs >= xe {
        img
    } else {
        row_spec(put_pixel(img, width, height, xs, y, color), width, height, xs + 1, xe, y, color)
    }
}

/// Blends `color` into the pixels of columns `xs..xe` and rows `ys..ye`,
/// row by row.
pub open spec fn block_spec(
    img: Seq<u8>,
    width: u32,
    height: u32,
    xs: int,
    xe: int,
    ys: int,
    ye: int,
    color: Color,
) -> Seq<u8>
    decreases ye - ys,
{
    if ys >= ye {
        img
    } else {
        block_spec(
            row_spec(img, width, height, xs, xe, ys, color),
            width,
            height,
            xs,
            xe,
            ys + 1,
            ye,
            color,
        )
    }
}

/// Half the side of the square a pen of `width` pixels stamps; negative
/// (nothing stamped) when the width does not fit in `i32`.
pub open spec fn dot_radius(width: u32) -> int {
    if width > i32::MAX {
        -1
    } else if width == 0 {
        0
    } else {
        (width - 1) / 2
    }
}

/// A pen stamp: the square of side `2r + 1` centred on `(x, y)`.
pub open spec fn dot_spec(
    img: Seq<u8>,
    width: u32,
    height: u32,
    x: int,
    y: int,
    color: Color,
    pen: u32,
) -> Seq<u8> {
    let r = dot_radius(pen);
    block_spec(img, width, height, x - r, x + r + 1, y - r, y + r + 1, color)
}

proof fn lemma_put_pixel_len(img: Seq<u8>, width: u32, height: u32, x: int, y: int, color: Color)
    requires
        img.len() == rgba_len(width, height),
    ensures
        put_pixel(img, width, height, x, y, color).len() == img.len(),
{
    if in_image(width, height, x, y) {
        lemma_pixel_off_bounds(width, height, x, y);
    }
}

proof fn lemma_pixel_off_bounds(width: u32, height: u32, x: int, y: int)
    requires
        in_image(width, height, x, y),
    ensures
        0 <= pixel_off(width, x, y),
        pixel_off(width, x, y) + 4 <= rgba_len(width, height),
{
    assert(0 <= (y * width + x) * 4) by (nonlinear_arith)
        requires
            0 <= x,
            0 <= y,
            0 <= width,
    ;
    assert((y * width + x) * 4 + 4 <= width * height * 4) by (nonlinear_arith)
        requires
            0 <= x < width,
            0 <= y < height,
    ;
}

proof fn lemma_row_spec_len(
    img: Seq<u8>,
    width: u32,
    height: u32,
    xs: int,
    xe: int,
    y: int,
    color: Color,
)
    requires
        img.len() == rgba_len(width, height),
    ensures
        row_spec(img, width, height, xs, xe, y, color).len() == img.len(),
    decreases xe - xs,
{
    if xs < xe {
        lemma_put_pixel_len(img, width, height, xs, y, color);
        lemma_row_spec_len(put_pixel(img, width, height, xs, y, color), width, height, xs + 1, xe, y, color);
    }
}

proof fn lemma_block_spec_len(
    img: Seq<u8>,
    width: u32,
    height: u32,
    xs: int,
    xe: int,
    ys: int,
    ye: int,
    color: Color,
)
    requires
        img.len() == rgba_len(width, height),
    ensures
        block_spec(img, width, height, xs, xe, ys, ye, color).len() == img.len(),
    decreases ye - ys,
{
    if ys < ye {
        lemma_row_spec_len(img, width, height, xs, xe, ys, color);
        lemma_block_spec_len(
            row_spec(img, width, height, xs, xe, ys, color),
            width,
            height,
            xs,
            xe,
            ys + 1,
            ye,
            color,
        );
    }
}

/// The range in which drawing coordinates are computed exactly.
pub open spec fn coord_ok(v: int) -> bool {
    -0x100_0000_0000 <= v <= 0x100_0000_0000
}

/// The range of glyph positions the text placeholder computes exactly.
pub open spec fn coord_wide(v: int) -> bool {
    -0x4000_0400_0000_0000 <= v <= 0x4000_0400_0000_0000
}

/// The range in which block corners are handled.
pub open spec fn coord_fill(v: int) -> bool {
    -0x400_0000_0000 <= v <= 0x400_0000_0000
}

/// Byte offset of pixel `(x, y)`, or `None` outside the image.
pub fn pixel_offset(image: &CapturedImage, x: i64, y: i64) -> (r: Option<usize>)
    requires
        image.wf(),
    ensures
        r == (if in_image(image.width, image.height, x as int, y as int) {
            Some(pixel_off(image.width, x as int, y as int) as usize)
        } else {
            None::<usize>
        }),
        r matches Some(off) ==> off + 4 <= image.rgba@.len() && off == pixel_off(
            image.width,
            x as int,
            y as int,
        ),
{
    if x < 0 || y < 0 || x >= image.width as i64 || y >= image.height as i64 {
        return None;
    }
    proof {
        lemma_pixel_off_bounds(image.width, image.height, x as int, y as int);
    }
    let off = (y as usize * image.width as usize + x as usize) * 4;
    Some(off)
}

/// Blends `color` into pixel `(x, y)`; a pixel outside the image is left
/// alone.
pub fn set_pixel(image: &mut CapturedImage, x: i64, y: i64, color: Color)
    requires
        old(image).wf(),
    ensures
        final(image).wf(),
        final(image).width == old(image).width,
        final(image).height == old(image).height,
        final(image).rgba@ == put_pixel(
            old(image).rgba@,
            old(image).width,
            old(image).height,
            x as int,
            y as int,
            color,
        ),
{
    let offset = match pixel_offset(image, x, y) {
        Some(off) => off,
        None => return ,
    };
    let alpha = color.a as u16;
    let inv = 255u16 - alpha;
    proof {
        assert(color.r as u16 * alpha + 255 * inv <= 65025) by (nonlinear_arith)
            requires
                alpha + inv == 255,
                color.r <= 255,
        ;
        assert(forall|c: u16, o: u16|
            c <= 255 && o <= 255 ==> #[trigger] (c * alpha) + #[trigger] (o * inv) <= 65025)
            by (nonlinear_arith)
            requires
                alpha + inv == 255,
        ;
    }
    let ghost start = image.rgba@;
    let r0 = image.rgba[offset] as u16;
    image.rgba[offset] = ((color.r as u16 * alpha + r0 * inv) / 255) as u8;
    let g0 = image.rgba[offset + 1] as u16;
    image.rgba[offset + 1] = ((color.g as u16 * alpha + g0 * inv) / 255) as u8;
    let b0 = image.rgba[offset + 2] as u16;
    image.rgba[offset + 2] = ((color.b as u16 * alpha + b0 * inv) / 255) as u8;
    image.rgba[offset + 3] = 255;
    assert(image.rgba@ =~= blend_at(start, offset as int, color));
}

/// Stamps a square pen of side `2 * ((width - 1) / 2) + 1` centred on
/// `(x, y)`; coordinates are computed exactly.
pub fn draw_dot(image: &mut CapturedImage, x: i64, y: i64, color: Color, width: u32)
    requires
        old(image).wf(),
        coord_ok(x as int),
        coord_ok(y as int),
    ensures
        final(image).wf(),
        final(image).width == old(image).width,
        final(image).height == old(image).height,
        final(image).rgba@ == dot_spec(
            old(image).rgba@,
            old(image).width,
            old(image).height,
            x as int,
            y as int,
            color,
            width,
        ),
{
    let w: u32 = if width == 0 {
        1
    } else {
        width
    };
    if w > 2147483647u32 {
        return ;
    }
    let radius: i64 = (w as i64 - 1) / 2;
    fill_block(image, x - radius, x + radius + 1, y - radius, y + radius + 1, color);
}

/// Blends `color` into every pixel of columns `xs..xe` and rows `ys..ye`.
fn fill_block(image: &mut CapturedImage, xs: i64, xe: i64, ys: i64, ye: i64, color: Color)
    requires
        old(image).wf(),
        coord_fill(xs as int),
        coord_fill(xe as int),
        coord_fill(ys as int),
        coord_fill(ye as int),
    ensures
        final(image).wf(),
        final(image).width == old(image).width,
        final(image).height == old(image).height,
        final(image).rgba@ == block_spec(
            old(image).rgba@,
            old(image).width,
            old(image).height,
            xs as int,
            xe as int,
            ys as int,
            ye as int,
            color,
        ),
{
    let ghost goal = block_spec(image.rgba@, image.width, image.height, xs as int, xe as int, ys as int, ye as int, color);
    let mut yy = ys;
    while yy < ye
        invariant
            image.wf(),
            image.width == old(image).width,
            image.height == old(image).height,
            coord_fill(xs as int),
            coord_fill(xe as int),
            coord_fill(ys as int),
            coord_fill(ye as int),
            ys <= yy,
            yy < ye || yy == ys || yy <= ye,
            block_spec(image.rgba@, image.width, image.height, xs as int, xe as int, yy as int, ye as int, color)
                == goal,
        decreases ye - yy,
    {
        let ghost row_start = image.rgba@;
        let mut xx = xs;
        while xx < xe
            invariant
                image.wf(),
                image.width == old(image).width,
                image.height == old(image).height,
                coord_fill(xs as int),
                coord_fill(xe as int),
                coord_fill(yy as int),
                xs <= xx,
                row_spec(image.rgba@, image.width, image.height, xx as int, xe as int, yy as int, color)
                    == row_spec(row_start, image.width, image.height, xs as int, xe as int, yy as int, color),
            decreases xe - xx,
        {
            set_pixel(image, xx, yy, color);
            xx += 1;
        }
        yy += 1;
    }
}

/// The constants of a Bresenham walk from `(x0, y0)` to `(x1, y1)`.
pub struct LineParams {
    pub x1: int,
    pub y1: int,
    pub dx: int,
    pub dy: int,
    pub sx: int,
    pub sy: int,
}

pub open spec fn abs_int(v: int) -> int {
    if v < 0 {
        -v
    } else {
        v
    }
}

pub open spec fn line_params(x0: int, y0: int, x1: int, y1: int) -> LineParams {
    LineParams {
        x1,
        y1,
        dx: abs_int(x1 - x0),
        dy: -abs_int(y1 - y0),
        sx: if x0 < x1 {
            1
        } else {
            -1
        },
        sy: if y0 < y1 {
            1
        } else {
            -1
        },
    }
}

/// One Bresenham step from `(x, y)` with error term `err`: the new position
/// and error.
pub open spec fn line_step(p: LineParams, x: int, y: int, err: int) -> (int, int, int) {
    let e2 = 2 * err;
    let (x2, err2) = if e2 >= p.dy {
        (x + p.sx, err + p.dy)
    } else {
        (x, err)
    };
    if e2 <= p.dx {
        (x2, y + p.sy, err2 + p.dx)
    } else {
        (x2, y, err2)
    }
}

/// Stamps the pen at `(x, y)`, then walks on until the end point, stamping
/// at each position (for at most `fuel` more positions).
pub open spec fn line_fold(
    img: Seq<u8>,
    width: u32,
    height: u32,
    p: LineParams,
    x: int,
    y: int,
    err: int,
    color: Color,
    pen: u32,
    fuel: nat,
) -> Seq<u8>
    decreases fuel,
{
    let img1 = dot_spec(img, width, height, x, y, color, pen);
    if (x == p.x1 && y == p.y1) || fuel == 0 {
        img1
    } else {
        let (nx, ny, nerr) = line_step(p, x, y, err);
        line_fold(img1, width, height, p, nx, ny, nerr, color, pen, (fuel - 1) as nat)
    }
}

/// A line from `(x0, y0)` to `(x1, y1)` drawn with a square pen at every
/// pixel that Bresenham's walk visits, both ends included.
pub open spec fn line_spec(
    img: Seq<u8>,
    width: u32,
    height: u32,
    x0: int,
    y0: int,
    x1: int,
    y1: int,
    color: Color,
    pen: u32,
) -> Seq<u8> {
    let p = line_params(x0, y0, x1, y1);
    line_fold(img, width, height, p, x0, y0, p.dx + p.dy, color, pen, (p.dx - p.dy + 1) as nat)
}

/// Distance still to walk along x (`rx`) given the direction of the walk.
pub open spec fn remaining(s: int, pos: int, target: int) -> int {
    if s == 1 {
        target - pos
    } else {
        pos - target
    }
}

proof fn lemma_mul_ge(a: int, b: int)
    requires
        a >= 0,
        b >= 1,
    ensures
        a * b >= a,
{
    assert(a * b >= a) by (nonlinear_arith)
        requires
            a >= 0,
            b >= 1,
    ;
}

proof fn lemma_mul_pred(a: int, b: int)
    ensures
        a * (b - 1) == a * b - a,
{
    assert(a * (b - 1) == a * b - a) by (nonlinear_arith);
}

/// The facts behind one Bresenham step: a coordinate moves only while it has
/// distance left, and at least one moves.
proof fn lemma_step_moves(dx: int, big_dy: int, rx: int, ry: int, err: int)
    requires
        0 <= rx <= dx,
        0 <= ry <= big_dy,
        rx + ry > 0,
        err == dx - big_dy - dx * ry + big_dy * rx,
    ensures
        2 * err >= -big_dy ==> rx > 0,
        2 * err <= dx ==> ry > 0,
{
    if rx == 0 {
        lemma_mul_ge(dx, ry);
        assert(big_dy * rx == 0) by (nonlinear_arith)
            requires
                rx == 0,
        ;
    }
    if ry == 0 {
        lemma_mul_ge(big_dy, rx);
        assert(dx * ry == 0) by (nonlinear_arith)
            requires
                ry == 0,
        ;
    }
}

/// Draws a line between two points with exactly computed coordinates.
fn draw_line_at(image: &mut CapturedImage, x0: i64, y0: i64, x1: i64, y1: i64, color: Color, width: u32)
    requires
        old(image).wf(),
        coord_ok(x0 as int),
        coord_ok(y0 as int),
        coord_ok(x1 as int),
        coord_ok(y1 as int),
    ensures
        final(image).wf(),
        final(image).width == old(image).width,
        final(image).height == old(image).height,
        final(image).rgba@ == line_spec(
            old(image).rgba@,
            old(image).width,
            old(image).height,
            x0 as int,
            y0 as int,
            x1 as int,
            y1 as int,
            color,
            width,
        ),
{
    let ghost p = line_params(x0 as int, y0 as int, x1 as int, y1 as int);
    let ghost goal = line_spec(
        image.rgba@,
        image.width,
        image.height,
        x0 as int,
        y0 as int,
        x1 as int,
        y1 as int,
        color,
        width,
    );
    let dx: i64 = if x1 >= x0 {
        x1 - x0
    } else {
        x0 - x1
    };
    let sx: i64 = if x0 < x1 {
        1
    } else {
        -1
    };
    let dy: i64 = if y1 >= y0 {
        y0 - y1
    } else {
        y1 - y0
    };
    let sy: i64 = if y0 < y1 {
        1
    } else {
        -1
    };
    let mut err: i64 = dx + dy;
    let mut x = x0;
    let mut y = y0;
    let ghost big_dy: int = -dy;
    let ghost mut fuel: nat = (dx - dy + 1) as nat;
    let ghost mut px: int = big_dy * remaining(sx as int, x as int, x1 as int);
    let ghost mut py: int = dx * remaining(sy as int, y as int, y1 as int);
    proof {
        assert(px == big_dy * dx);
        assert(py == dx * big_dy) by (nonlinear_arith)
            requires
                py == dx * big_dy,
        ;
        assert(dx * big_dy == big_dy * dx) by (nonlinear_arith);
    }
    loop
        invariant_except_break
            image.wf(),
            image.width == old(image).width,
            image.height == old(image).height,
            p == line_params(x0 as int, y0 as int, x1 as int, y1 as int),
            p.dx == dx,
            p.dy == dy,
            p.sx == sx,
            p.sy == sy,
            p.x1 == x1,
            p.y1 == y1,
            big_dy == -dy,
            coord_ok(x0 as int),
            coord_ok(y0 as int),
            coord_ok(x1 as int),
            coord_ok(y1 as int),
            0 <= remaining(sx as int, x as int, x1 as int) <= dx,
            0 <= remaining(sy as int, y as int, y1 as int) <= big_dy,
            sx == 1 ==> x0 < x1,
            sx == -1 ==> x1 <= x0,
            sy == 1 ==> y0 < y1,
            sy == -1 ==> y1 <= y0,
            dx == abs_int(x1 - x0),
            big_dy == abs_int(y1 - y0),
            px == big_dy * remaining(sx as int, x as int, x1 as int),
            py == dx * remaining(sy as int, y as int, y1 as int),
            err == dx - big_dy - py + px,
            2 * dy <= err <= 2 * dx,
            fuel >= remaining(sx as int, x as int, x1 as int) + remaining(sy as int, y as int, y1 as int) + 1,
            line_fold(image.rgba@, image.width, image.height, p, x as int, y as int, err as int, color, width, fuel)
                == goal,
        ensures
            image.wf(),
            image.width == old(image).width,
            image.height == old(image).height,
            image.rgba@ == goal,
        decreases fuel,
    {
        let ghost before = image.rgba@;
        draw_dot(image, x, y, color, width);
        if x == x1 && y == y1 {
            break;
        }
        let ghost rx = remaining(sx as int, x as int, x1 as int);
        let ghost ry = remaining(sy as int, y as int, y1 as int);
        proof {
            lemma_step_moves(dx as int, big_dy, rx, ry, err as int);
        }
        let ghost stepped = line_step(p, x as int, y as int, err as int);
        let e2 = 2 * err;
        if e2 >= dy {
            err += dy;
            x += sx;
            proof {
                lemma_mul_pred(big_dy, rx);
                px = px - big_dy;
            }
        }
        if e2 <= dx {
            err += dx;
            y += sy;
            proof {
                lemma_mul_pred(dx as int, ry);
                py = py - dx;
            }
        }
        proof {
            assert(stepped == (x as int, y as int, err as int));
            fuel = (fuel - 1) as nat;
        }
    }
}

/// Draws a line from `start` to `end` with a square pen of `width` pixels.
pub fn draw_line(image: &mut CapturedImage, start: Point, end: Point, color: Color, width: u32)
    requires
        old(image).wf(),
    ensures
        final(image).wf(),
        final(image).width == old(image).width,
        final(image).height == old(image).height,
        final(image).rgba@ == line_spec(
            old(image).rgba@,
            old(image).width,
            old(image).height,
            start.x as int,
            start.y as int,
            end.x as int,
            end.y as int,
            color,
            width,
        ),
{
    draw_line_at(image, start.x as i64, start.y as i64, end.x as i64, end.y as i64, color, width);
}


/// The four one-pixel edges of the ring `offset` pixels inside `rect`.
pub open spec fn frame_spec(img: Seq<u8>, width: u32, height: u32, rect: Rect, color: Color, o: int) -> Seq<
    u8,
> {
    let left = rect.x as int;
    let top = rect.y as int;
    let right = rect.x + rect.width - 1;
    let bottom = rect.y + rect.height - 1;
    let i1 = line_spec(img, width, height, left + o, top + o, right - o, top + o, color, 1);
    let i2 = line_spec(i1, width, height, left + o, bottom - o, right - o, bottom - o, color, 1);
    let i3 = line_spec(i2, width, height, left + o, top + o, left + o, bottom - o, color, 1);
    line_spec(i3, width, height, right - o, top + o, right - o, bottom - o, color, 1)
}

/// Rings `o..n` of a rectangle outline, outermost first.
pub open spec fn outline_fold(
    img: Seq<u8>,
    width: u32,
    height: u32,
    rect: Rect,
    color: Color,
    o: int,
    n: int,
) -> Seq<u8>
    decreases n - o,
{
    if o >= n {
        img
    } else {
        outline_fold(frame_spec(img, width, height, rect, color, o), width, height, rect, color, o + 1, n)
    }
}

/// How many rings a pen of `width` pixels draws; none when the width does
/// not fit in `i32`.
pub open spec fn ring_count(width: u32) -> int {
    if width > i32::MAX {
        0
    } else if width == 0 {
        1
    } else {
        width as int
    }
}

/// A rectangle outline `width` rings thick, drawn inward from the edge.
pub open spec fn outline_spec(img: Seq<u8>, width: u32, height: u32, rect: Rect, color: Color, pen: u32) -> Seq<
    u8,
> {
    outline_fold(img, width, height, rect, color, 0, ring_count(pen))
}

/// Pixel `(x, y)` of a well-sized buffer holds `color` exactly, opaque.
pub open spec fn painted(img: Seq<u8>, width: u32, height: u32, x: int, y: int, color: Color) -> bool {
    let off = pixel_off(width, x, y);
    &&& img.len() == rgba_len(width, height)
    &&& in_image(width, height, x, y)
    &&& img[off] == color.r
    &&& img[off + 1] == color.g
    &&& img[off + 2] == color.b
    &&& img[off + 3] == 255
}

proof fn lemma_blend_opaque(c: u8, old: u8)
    ensures
        blend(c, 255u8, old) == c,
{
    assert((c * 255 + old * (255 - 255)) / 255 == c) by (nonlinear_arith);
}

proof fn lemma_pixels_apart(width: u32, height: u32, x: int, y: int, x2: int, y2: int)
    requires
        in_image(width, height, x, y),
        in_image(width, height, x2, y2),
        x != x2 || y != y2,
    ensures
        pixel_off(width, x, y) + 4 <= pixel_off(width, x2, y2) || pixel_off(width, x2, y2) + 4 <= pixel_off(
            width,
            x,
            y,
        ),
{
    if y == y2 {
        assert(pixel_off(width, x, y) - pixel_off(width, x2, y2) == (x - x2) * 4) by (nonlinear_arith)
            requires
                y == y2,
        ;
    } else if y < y2 {
        assert(y * width + x + 1 <= y2 * width + x2) by (nonlinear_arith)
            requires
                0 <= x < width,
                0 <= x2,
                y + 1 <= y2,
        ;
    } else {
        assert(y2 * width + x2 + 1 <= y * width + x) by (nonlinear_arith)
            requires
                0 <= x2 < width,
                0 <= x,
                y2 + 1 <= y,
        ;
    }
}

proof fn lemma_put_keeps(img: Seq<u8>, width: u32, height: u32, x: int, y: int, px: int, py: int, color: Color)
    requires
        color.a == 255,
        painted(img, width, height, x, y, color),
    ensures
        painted(put_pixel(img, width, height, px, py, color), width, height, x, y, color),
{
    lemma_put_pixel_len(img, width, height, px, py, color);
    lemma_pixel_off_bounds(width, height, x, y);
    if in_image(width, height, px, py) {
        lemma_pixel_off_bounds(width, height, px, py);
        let off = pixel_off(width, x, y);
        if px == x && py == y {
            lemma_blend_opaque(color.r, img[off]);
            lemma_blend_opaque(color.g, img[off + 1]);
            lemma_blend_opaque(color.b, img[off + 2]);
        } else {
            lemma_pixels_apart(width, height, x, y, px, py);
        }
    }
}

proof fn lemma_put_paints(img: Seq<u8>, width: u32, height: u32, x: int, y: int, color: Color)
    requires
        color.a == 255,
        img.len() == rgba_len(width, height),
        in_image(width, height, x, y),
    ensures
        painted(put_pixel(img, width, height, x, y, color), width, height, x, y, color),
{
    lemma_put_pixel_len(img, width, height, x, y, color);
    lemma_pixel_off_bounds(width, height, x, y);
    let off = pixel_off(width, x, y);
    lemma_blend_opaque(color.r, img[off]);
    lemma_blend_opaque(color.g, img[off + 1]);
    lemma_blend_opaque(color.b, img[off + 2]);
}

proof fn lemma_row_keeps(img: Seq<u8>, width: u32, height: u32, xs: int, xe: int, ry: int, x: int, y: int, color: Color)
    requires
        color.a == 255,
        painted(img, width, height, x, y, color),
    ensures
        painted(row_spec(img, width, height, xs, xe, ry, color), width, height, x, y, color),
    decreases xe - xs,
{
    if xs < xe {
        lemma_put_keeps(img, width, height, x, y, xs, ry, color);
        lemma_row_keeps(put_pixel(img, width, height, xs, ry, color), width, height, xs + 1, xe, ry, x, y, color);
    }
}

proof fn lemma_block_keeps(
    img: Seq<u8>,
    width: u32,
    height: u32,
    xs: int,
    xe: int,
    ys: int,
    ye: int,
    x: int,
    y: int,
    color: Color,
)
    requires
        color.a == 255,
        painted(img, width, height, x, y, color),
    ensures
        painted(block_spec(img, width, height, xs, xe, ys, ye, color), width, height, x, y, color),
    decreases ye - ys,
{
    if ys < ye {
        lemma_row_keeps(img, width, height, xs, xe, ys, x, y, color);
        lemma_block_keeps(row_spec(img, width, height, xs, xe, ys, color), width, height, xs, xe, ys + 1, ye, x, y, color);
    }
}

proof fn lemma_line_fold_keeps(
    img: Seq<u8>,
    width: u32,
    height: u32,
    p: LineParams,
    lx: int,
    ly: int,
    err: int,
    color: Color,
    pen: u32,
    fuel: nat,
    x: int,
    y: int,
)
    requires
        color.a == 255,
        painted(img, width, height, x, y, color),
    ensures
        painted(line_fold(img, width, height, p, lx, ly, err, color, pen, fuel), width, height, x, y, color),
    decreases fuel,
{
    let r = dot_radius(pen);
    lemma_block_keeps(img, width, height, lx - r, lx + r + 1, ly - r, ly + r + 1, x, y, color);
    let img1 = dot_spec(img, width, height, lx, ly, color, pen);
    if !((lx == p.x1 && ly == p.y1) || fuel == 0) {
        let (nx, ny, nerr) = line_step(p, lx, ly, err);
        lemma_line_fold_keeps(img1, width, height, p, nx, ny, nerr, color, pen, (fuel - 1) as nat, x, y);
    }
}

proof fn lemma_line_keeps(
    img: Seq<u8>,
    width: u32,
    height: u32,
    x0: int,
    y0: int,
    x1: int,
    y1: int,
    color: Color,
    pen: u32,
    x: int,
    y: int,
)
    requires
        color.a == 255,
        painted(img, width, height, x, y, color),
    ensures
        painted(line_spec(img, width, height, x0, y0, x1, y1, color, pen), width, height, x, y, color),
{
    let p = line_params(x0, y0, x1, y1);
    lemma_line_fold_keeps(img, width, height, p, x0, y0, p.dx + p.dy, color, pen, (p.dx - p.dy + 1) as nat, x, y);
}

/// A one-pixel line starts by painting its first end.
proof fn lemma_line_paints_start(img: Seq<u8>, width: u32, height: u32, x0: int, y0: int, x1: int, y1: int, color: Color)
    requires
        color.a == 255,
        img.len() == rgba_len(width, height),
        in_image(width, height, x0, y0),
    ensures
        painted(line_spec(img, width, height, x0, y0, x1, y1, color, 1), width, height, x0, y0, color),
{
    let p = line_params(x0, y0, x1, y1);
    let fuel = (p.dx - p.dy + 1) as nat;
    assert(dot_radius(1) == 0);
    let one = put_pixel(img, width, height, x0, y0, color);
    assert(row_spec(img, width, height, x0, x0 + 1, y0, color) == row_spec(one, width, height, x0 + 1, x0 + 1, y0, color));
    assert(row_spec(img, width, height, x0, x0 + 1, y0, color) == one);
    assert(block_spec(one, width, height, x0, x0 + 1, y0 + 1, y0 + 1, color) == one);
    assert(dot_spec(img, width, height, x0, y0, color, 1) == one);
    lemma_put_paints(img, width, height, x0, y0, color);
    if !((x0 == p.x1 && y0 == p.y1) || fuel == 0) {
        let (nx, ny, nerr) = line_step(p, x0, y0, p.dx + p.dy);
        lemma_line_fold_keeps(one, width, height, p, nx, ny, nerr, color, 1, (fuel - 1) as nat, x0, y0);
    }
}

proof fn lemma_frame_keeps(img: Seq<u8>, width: u32, height: u32, rect: Rect, color: Color, o: int, x: int, y: int)
    requires
        color.a == 255,
        painted(img, width, height, x, y, color),
    ensures
        painted(frame_spec(img, width, height, rect, color, o), width, height, x, y, color),
{
    let left = rect.x as int;
    let top = rect.y as int;
    let right = rect.x + rect.width - 1;
    let bottom = rect.y + rect.height - 1;
    let i1 = line_spec(img, width, height, left + o, top + o, right - o, top + o, color, 1);
    let i2 = line_spec(i1, width, height, left + o, bottom - o, right - o, bottom - o, color, 1);
    let i3 = line_spec(i2, width, height, left + o, top + o, left + o, bottom - o, color, 1);
    lemma_line_keeps(img, width, height, left + o, top + o, right - o, top + o, color, 1, x, y);
    lemma_line_keeps(i1, width, height, left + o, bottom - o, right - o, bottom - o, color, 1, x, y);
    lemma_line_keeps(i2, width, height, left + o, top + o, left + o, bottom - o, color, 1, x, y);
    lemma_line_keeps(i3, width, height, right - o, top + o, right - o, bottom - o, color, 1, x, y);
}

proof fn lemma_frame_paints_corner(img: Seq<u8>, width: u32, height: u32, rect: Rect, color: Color, o: int)
    requires
        color.a == 255,
        img.len() == rgba_len(width, height),
        in_image(width, height, rect.x + o, rect.y + o),
    ensures
        painted(frame_spec(img, width, height, rect, color, o), width, height, rect.x + o, rect.y + o, color),
{
    let left = rect.x as int;
    let top = rect.y as int;
    let right = rect.x + rect.width - 1;
    let bottom = rect.y + rect.height - 1;
    let i1 = line_spec(img, width, height, left + o, top + o, right - o, top + o, color, 1);
    let i2 = line_spec(i1, width, height, left + o, bottom - o, right - o, bottom - o, color, 1);
    let i3 = line_spec(i2, width, height, left + o, top + o, left + o, bottom - o, color, 1);
    lemma_line_paints_start(img, width, height, left + o, top + o, right - o, top + o, color);
    lemma_line_keeps(i1, width, height, left + o, bottom - o, right - o, bottom - o, color, 1, left + o, top + o);
    lemma_line_keeps(i2, width, height, left + o, top + o, left + o, bottom - o, color, 1, left + o, top + o);
    lemma_line_keeps(i3, width, height, right - o, top + o, right - o, bottom - o, color, 1, left + o, top + o);
}

proof fn lemma_outline_fold_keeps(img: Seq<u8>, width: u32, height: u32, rect: Rect, color: Color, o: int, n: int, x: int, y: int)
    requires
        color.a == 255,
        painted(img, width, height, x, y, color),
    ensures
        painted(outline_fold(img, width, height, rect, color, o, n), width, height, x, y, color),
    decreases n - o,
{
    if o < n {
        lemma_frame_keeps(img, width, height, rect, color, o, x, y);
        lemma_outline_fold_keeps(frame_spec(img, width, height, rect, color, o), width, height, rect, color, o + 1, n, x, y);
    }
}

proof fn lemma_line_fold_len(
    img: Seq<u8>,
    width: u32,
    height: u32,
    p: LineParams,
    lx: int,
    ly: int,
    err: int,
    color: Color,
    pen: u32,
    fuel: nat,
)
    requires
        img.len() == rgba_len(width, height),
    ensures
        line_fold(img, width, height, p, lx, ly, err, color, pen, fuel).len() == img.len(),
    decreases fuel,
{
    let r = dot_radius(pen);
    lemma_block_spec_len(img, width, height, lx - r, lx + r + 1, ly - r, ly + r + 1, color);
    let img1 = dot_spec(img, width, height, lx, ly, color, pen);
    if !((lx == p.x1 && ly == p.y1) || fuel == 0) {
        let (nx, ny, nerr) = line_step(p, lx, ly, err);
        lemma_line_fold_len(img1, width, height, p, nx, ny, nerr, color, pen, (fuel - 1) as nat);
    }
}

proof fn lemma_line_len(img: Seq<u8>, width: u32, height: u32, x0: int, y0: int, x1: int, y1: int, color: Color, pen: u32)
    requires
        img.len() == rgba_len(width, height),
    ensures
        line_spec(img, width, height, x0, y0, x1, y1, color, pen).len() == img.len(),
{
    let p = line_params(x0, y0, x1, y1);
    lemma_line_fold_len(img, width, height, p, x0, y0, p.dx + p.dy, color, pen, (p.dx - p.dy + 1) as nat);
}

proof fn lemma_frame_len(img: Seq<u8>, width: u32, height: u32, rect: Rect, color: Color, o: int)
    requires
        img.len() == rgba_len(width, height),
    ensures
        frame_spec(img, width, height, rect, color, o).len() == img.len(),
{
    let left = rect.x as int;
    let top = rect.y as int;
    let right = rect.x + rect.width - 1;
    let bottom = rect.y + rect.height - 1;
    let i1 = line_spec(img, width, height, left + o, top + o, right - o, top + o, color, 1);
    let i2 = line_spec(i1, width, height, left + o, bottom - o, right - o, bottom - o, color, 1);
    let i3 = line_spec(i2, width, height, left + o, top + o, left + o, bottom - o, color, 1);
    lemma_line_len(img, width, height, left + o, top + o, right - o, top + o, color, 1);
    lemma_line_len(i1, width, height, left + o, bottom - o, right - o, bottom - o, color, 1);
    lemma_line_len(i2, width, height, left + o, top + o, left + o, bottom - o, color, 1);
    lemma_line_len(i3, width, height, right - o, top + o, right - o, bottom - o, color, 1);
}

proof fn lemma_outline_fold_paints(img: Seq<u8>, width: u32, height: u32, rect: Rect, color: Color, o: int, n: int, k: int)
    requires
        color.a == 255,
        img.len() == rgba_len(width, height),
        o <= k < n,
        in_image(width, height, rect.x + k, rect.y + k),
    ensures
        painted(outline_fold(img, width, height, rect, color, o, n), width, height, rect.x + k, rect.y + k, color),
    decreases n - o,
{
    let next = frame_spec(img, width, height, rect, color, o);
    lemma_frame_len(img, width, height, rect, color, o);
    if o == k {
        lemma_frame_paints_corner(img, width, height, rect, color, o);
        lemma_outline_fold_keeps(next, width, height, rect, color, o + 1, n, rect.x + k, rect.y + k);
    } else {
        lemma_outline_fold_paints(next, width, height, rect, color, o + 1, n, k);
    }
}

/// A rectangle outline drawn with an opaque colour and a pen of `pen`
/// pixels (a pen of 0 counts as 1) is that many rings thick: for every
/// `k` below the pen width that fits in the rectangle, the pixel `k` steps
/// in along the diagonal from the top-left corner, `(rect.x + k, rect.y + k)`,
/// holds the colour.
pub proof fn lemma_outline_thickness(img: Seq<u8>, width: u32, height: u32, rect: Rect, color: Color, pen: u32, k: int)
    requires
        img.len() == rgba_len(width, height),
        rect_inside(rect, width, height),
        color.a == 255,
        pen <= i32::MAX,
        0 <= k,
        k < pen || k == 0,
        k < rect.width,
        k < rect.height,
    ensures
        ({
            let out = outline_spec(img, width, height, rect, color, pen);
            let off = ((rect.y + k) * width + rect.x + k) * 4;
            &&& out[off] == color.r
            &&& out[off + 1] == color.g
            &&& out[off + 2] == color.b
            &&& out[off + 3] == 255
        }),
{
    lemma_outline_fold_paints(img, width, height, rect, color, 0, ring_count(pen), k);
    assert(pixel_off(width, rect.x + k, rect.y + k) == ((rect.y + k) * width + rect.x + k) * 4);
}

/// Refuses a rectangle that is empty or not inside the image.
pub fn validate_rect_for_image(image: &CapturedImage, rect: Rect) -> (r: Result<()>)
    requires
        rect_check_fits(rect, image.width, image.height),
    ensures
        rect_inside(rect, image.width, image.height) ==> r is Ok,
        !rect_inside(rect, image.width, image.height) ==> r == Err::<(), WinScreenError>(
            WinScreenError::InvalidRect(rect),
        ),
{
    if rect.width == 0 || rect.height == 0 || rect.x < 0 || rect.y < 0 || rect.x as u32
        >= image.width || rect.y as u32 >= image.height || rect.x as u32 + rect.width
        > image.width || rect.y as u32 + rect.height > image.height {
        return Err(WinScreenError::InvalidRect(rect));
    }
    Ok(())
}

/// Draws the outline of `rect`, `width` pixels thick, inside its bounds.
pub fn draw_rect(image: &mut CapturedImage, rect: Rect, color: Color, width: u32) -> (r: Result<()>)
    requires
        old(image).wf(),
        rect_check_fits(rect, old(image).width, old(image).height),
    ensures
        final(image).wf(),
        final(image).width == old(image).width,
        final(image).height == old(image).height,
        rect_inside(rect, old(image).width, old(image).height) ==> r is Ok && final(image).rgba@
            == outline_spec(old(image).rgba@, old(image).width, old(image).height, rect, color, width),
        !rect_inside(rect, old(image).width, old(image).height) ==> r == Err::<(), WinScreenError>(
            WinScreenError::InvalidRect(rect),
        ) && final(image).rgba@ == old(image).rgba@,
{
    validate_rect_for_image(image, rect)?;
    let w: u32 = if width == 0 {
        1
    } else {
        width
    };
    if w > 2147483647u32 {
        return Ok(());
    }
    let n = w as i64;
    let left = rect.x as i64;
    let top = rect.y as i64;
    let right = rect.x as i64 + rect.width as i64 - 1;
    let bottom = rect.y as i64 + rect.height as i64 - 1;
    let ghost goal = outline_spec(image.rgba@, image.width, image.height, rect, color, width);
    let mut offset: i64 = 0;
    while offset < n
        invariant
            image.wf(),
            image.width == old(image).width,
            image.height == old(image).height,
            rect_inside(rect, image.width, image.height),
            n == ring_count(width),
            1 <= n <= i32::MAX,
            0 <= offset <= n,
            left == rect.x,
            top == rect.y,
            right == rect.x + rect.width - 1,
            bottom == rect.y + rect.height - 1,
            outline_fold(image.rgba@, image.width, image.height, rect, color, offset as int, n as int) == goal,
        decreases n - offset,
    {
        draw_line_at(image, left + offset, top + offset, right - offset, top + offset, color, 1);
        draw_line_at(image, left + offset, bottom - offset, right - offset, bottom - offset, color, 1);
        draw_line_at(image, left + offset, top + offset, left + offset, bottom - offset, color, 1);
        draw_line_at(image, right - offset, top + offset, right - offset, bottom - offset, color, 1);
        offset += 1;
    }
    Ok(())
}


pub open spec fn clamp_int(v: int, lo: int, hi: int) -> int {
    if v < lo {
        lo
    } else if v > hi {
        hi
    } else {
        v
    }
}

/// The part of the rectangle at `(x, y)` of size `rw` x `rh` that lies in a
/// `width` x `height` image, at least one pixel on each side.
pub open spec fn clip_spec(width: u32, height: u32, x: int, y: int, rw: int, rh: int) -> Rect {
    let left = clamp_int(x, 0, width - 1);
    let top = clamp_int(y, 0, height - 1);
    let right = clamp_int(x + rw, left + 1, width as int);
    let bottom = clamp_int(y + rh, top + 1, height as int);
    Rect { x: left as i32, y: top as i32, width: (right - left) as u32, height: (bottom - top) as u32 }
}

/// Clips a rectangle to a non-empty image; the result always lies inside it.
pub fn clip_rect_to_image(image: &CapturedImage, x: i64, y: i64, rw: i64, rh: i64) -> (r: Rect)
    requires
        image.wf(),
        image.width > 0,
        image.height > 0,
        coord_wide(x as int),
        coord_wide(y as int),
        0 <= rw <= u32::MAX,
        0 <= rh <= u32::MAX,
    ensures
        r == clip_spec(image.width, image.height, x as int, y as int, rw as int, rh as int),
        rect_inside(r, image.width, image.height),
        rect_check_fits(r, image.width, image.height),
{
    proof {
        assert(image.width as int * 4 <= u32::MAX) by (nonlinear_arith)
            requires
                image.height >= 1,
                image.width as int * image.height as int * 4 <= u32::MAX,
        ;
        assert(image.height as int * 4 <= u32::MAX) by (nonlinear_arith)
            requires
                image.width >= 1,
                image.width as int * image.height as int * 4 <= u32::MAX,
        ;
    }
    let w = image.width as i64;
    let h = image.height as i64;
    let left = if x < 0 {
        0
    } else if x > w - 1 {
        w - 1
    } else {
        x
    };
    let top = if y < 0 {
        0
    } else if y > h - 1 {
        h - 1
    } else {
        y
    };
    let rx = x + rw;
    let right = if rx < left + 1 {
        left + 1
    } else if rx > w {
        w
    } else {
        rx
    };
    let ry = y + rh;
    let bottom = if ry < top + 1 {
        top + 1
    } else if ry > h {
        h
    } else {
        ry
    };
    Rect { x: left as i32, y: top as i32, width: (right - left) as u32, height: (bottom - top) as u32 }
}

/// Rust's `char::is_whitespace`: the Unicode `White_Space` property.
pub open spec fn is_whitespace_spec(c: char) -> bool {
    let v = c as u32;
    ||| 0x09 <= v <= 0x0d
    ||| v == 0x20
    ||| v == 0x85
    ||| v == 0xa0
    ||| v == 0x1680
    ||| 0x2000 <= v <= 0x200a
    ||| v == 0x2028
    ||| v == 0x2029
    ||| v == 0x202f
    ||| v == 0x205f
    ||| v == 0x3000
}

/// Whether a character is Unicode whitespace.
pub fn is_whitespace(c: char) -> (b: bool)
    ensures
        b == is_whitespace_spec(c),
{
    let v = c as u32;
    (0x09 <= v && v <= 0x0d) || v == 0x20 || v == 0x85 || v == 0xa0 || v == 0x1680 || (0x2000 <= v
        && v <= 0x200a) || v == 0x2028 || v == 0x2029 || v == 0x202f || v == 0x205f || v == 0x3000
}

/// Width of one placeholder glyph box.
pub open spec fn glyph_width(font_size: u32) -> int {
    if font_size / 2 < 6 {
        6
    } else {
        (font_size / 2) as int
    }
}

/// Height of one placeholder glyph box.
pub open spec fn glyph_height(font_size: u32) -> int {
    if font_size > i32::MAX {
        2
    } else if font_size < 12 {
        12
    } else {
        font_size as int
    }
}

/// One box per non-whitespace character from index `idx` on, each at the
/// character's slot `glyph_width + 2` pixels apart.
pub open spec fn text_fold(
    img: Seq<u8>,
    width: u32,
    height: u32,
    chars: Seq<char>,
    idx: int,
    ox: int,
    oy: int,
    font_size: u32,
    color: Color,
) -> Seq<u8>
    decreases chars.len() - idx,
{
    if idx >= chars.len() || idx < 0 {
        img
    } else {
        let next = if is_whitespace_spec(chars[idx]) {
            img
        } else {
            let cw = glyph_width(font_size);
            let clip = clip_spec(width, height, ox + idx * (cw + 2), oy, cw, glyph_height(font_size));
            outline_spec(img, width, height, clip, color, 1)
        };
        text_fold(next, width, height, chars, idx + 1, ox, oy, font_size, color)
    }
}

/// Whether the placeholder can draw `chars` without clamping into an empty
/// image: the image has pixels, or every character is whitespace.
pub open spec fn text_drawable(width: u32, height: u32, chars: Seq<char>) -> bool {
    (width > 0 && height > 0) || forall|i: int| 0 <= i < chars.len() ==> is_whitespace_spec(#[trigger] chars[i])
}

/// The placeholder text renderer on the characters of a buffer.
fn draw_text_chars(
    image: &mut CapturedImage,
    ox: i64,
    oy: i64,
    chars: &Vec<char>,
    color: Color,
    font_size: u32,
)
    requires
        old(image).wf(),
        coord_ok(ox as int),
        coord_ok(oy as int),
        chars@.len() <= i32::MAX,
        text_drawable(old(image).width, old(image).height, chars@),
    ensures
        final(image).wf(),
        final(image).width == old(image).width,
        final(image).height == old(image).height,
        final(image).rgba@ == text_fold(
            old(image).rgba@,
            old(image).width,
            old(image).height,
            chars@,
            0,
            ox as int,
            oy as int,
            font_size,
            color,
        ),
{
    let half = font_size / 2;
    let char_w: i64 = if half < 6 {
        6
    } else {
        half as i64
    };
    let char_h: i64 = if font_size > 2147483647u32 {
        2
    } else if font_size < 12 {
        12
    } else {
        font_size as i64
    };
    let ghost goal = text_fold(image.rgba@, image.width, image.height, chars@, 0, ox as int, oy as int, font_size, color);
    let mut idx: usize = 0;
    while idx < chars.len()
        invariant
            image.wf(),
            image.width == old(image).width,
            image.height == old(image).height,
            coord_ok(ox as int),
            coord_ok(oy as int),
            chars@.len() <= i32::MAX,
            idx <= chars@.len(),
            char_w == glyph_width(font_size),
            char_h == glyph_height(font_size),
            text_drawable(image.width, image.height, chars@),
            text_fold(image.rgba@, image.width, image.height, chars@, idx as int, ox as int, oy as int, font_size, color)
                == goal,
        decreases chars@.len() - idx,
    {
        let ch = chars[idx];
        if !is_whitespace(ch) {
            proof {
                assert(idx as int * (char_w + 2) <= 0x7fff_ffff * 0x8000_0002) by (nonlinear_arith)
                    requires
                        0 <= idx <= i32::MAX,
                        0 <= char_w + 2 <= 0x8000_0002,
                ;
                assert(0 <= idx as int * (char_w + 2)) by (nonlinear_arith)
                    requires
                        0 <= idx,
                        0 <= char_w + 2,
                ;
            }
            let x = ox + idx as i64 * (char_w + 2);
            let rect = clip_rect_to_image(image, x, oy, char_w, char_h);
            let _ = draw_rect(image, rect, color, 1);
        }
        idx += 1;
    }
}

/// The characters of a string, in order.
fn chars_of(text: &str) -> (v: Vec<char>)
    ensures
        v@ == text@,
{
    let n = text.unicode_len();
    let mut v: Vec<char> = Vec::new();
    let mut i: usize = 0;
    while i < n
        invariant
            n == text@.len(),
            i <= n,
            v@ == text@.subrange(0, i as int),
        decreases n - i,
    {
        v.push(text.get_char(i));
        i += 1;
        assert(v@ =~= text@.subrange(0, i as int));
    }
    assert(v@ =~= text@);
    v
}

/// Draws one outline box per non-whitespace character of `text`, the text
/// renderer used where no system font is available.
pub fn draw_text_placeholder(image: &mut CapturedImage, origin: Point, text: &str, color: Color, font_size: u32)
    requires
        old(image).wf(),
        text@.len() <= i32::MAX,
        text_drawable(old(image).width, old(image).height, text@),
    ensures
        final(image).wf(),
        final(image).width == old(image).width,
        final(image).height == old(image).height,
        final(image).rgba@ == text_fold(
            old(image).rgba@,
            old(image).width,
            old(image).height,
            text@,
            0,
            origin.x as int,
            origin.y as int,
            font_size,
            color,
        ),
{
    let chars = chars_of(text);
    draw_text_chars(image, origin.x as i64, origin.y as i64, &chars, color, font_size);
}


/// Pixels `xs..xe` of row `y` that lie within 12 pixels of `(cx, cy)`,
/// blended left to right.
pub open spec fn disc_row(
    img: Seq<u8>,
    width: u32,
    height: u32,
    cx: int,
    cy: int,
    xs: int,
    xe: int,
    y: int,
    color: Color,
) -> Seq<u8>
    decreases xe - xs,
{
    if xs >= xe {
        img
    } else {
        let dx = xs - cx;
        let dy = y - cy;
        let next = if dx * dx + dy * dy <= 144 {
            put_pixel(img, width, height, xs, y, color)
        } else {
            img
        };
        disc_row(next, width, height, cx, cy, xs + 1, xe, y, color)
    }
}

/// The disc of radius 12 around `(cx, cy)`, rows `ys..ye` of its bounding
/// square.
pub open spec fn disc_rows(
    img: Seq<u8>,
    width: u32,
    height: u32,
    cx: int,
    cy: int,
    ys: int,
    ye: int,
    color: Color,
) -> Seq<u8>
    decreases ye - ys,
{
    if ys >= ye {
        img
    } else {
        disc_rows(
            disc_row(img, width, height, cx, cy, cx - 12, cx + 13, ys, color),
            width,
            height,
            cx,
            cy,
            ys + 1,
            ye,
            color,
        )
    }
}

/// The decimal digit for `d < 10`.
pub open spec fn digit_char(d: int) -> char {
    if d == 0 {
        '0'
    } else if d == 1 {
        '1'
    } else if d == 2 {
        '2'
    } else if d == 3 {
        '3'
    } else if d == 4 {
        '4'
    } else if d == 5 {
        '5'
    } else if d == 6 {
        '6'
    } else if d == 7 {
        '7'
    } else if d == 8 {
        '8'
    } else {
        '9'
    }
}

/// The decimal representation of `v`, without leading zeros.
pub open spec fn decimal_digits(v: nat) -> Seq<char>
    decreases v,
{
    if v < 10 {
        seq![digit_char(v as int)]
    } else {
        decimal_digits(v / 10).push(digit_char((v % 10) as int))
    }
}

/// A numbered badge: a filled disc of radius 12 with the number's digits
/// drawn as placeholder boxes over it.
pub open spec fn number_spec(
    img: Seq<u8>,
    width: u32,
    height: u32,
    center: Point,
    value: u32,
    fill: Color,
    text: Color,
) -> Seq<u8> {
    let disc = disc_rows(img, width, height, center.x as int, center.y as int, center.y - 12, center.y + 13, fill);
    let digits = decimal_digits(value as nat);
    text_fold(disc, width, height, digits, 0, center.x - digits.len() * 3, center.y - 5, 10, text)
}

fn digit_of(d: u32) -> (c: char)
    requires
        d < 10,
    ensures
        c == digit_char(d as int),
{
    if d == 0 {
        '0'
    } else if d == 1 {
        '1'
    } else if d == 2 {
        '2'
    } else if d == 3 {
        '3'
    } else if d == 4 {
        '4'
    } else if d == 5 {
        '5'
    } else if d == 6 {
        '6'
    } else if d == 7 {
        '7'
    } else if d == 8 {
        '8'
    } else {
        '9'
    }
}

/// The decimal digits of `v`.
pub fn decimal_chars(v: u32) -> (r: Vec<char>)
    ensures
        r@ == decimal_digits(v as nat),
    decreases v,
{
    if v < 10 {
        let mut r = Vec::new();
        r.push(digit_of(v));
        assert(r@ =~= seq![digit_char(v as int)]);
        r
    } else {
        let mut r = decimal_chars(v / 10);
        r.push(digit_of(v % 10));
        r
    }
}

/// A `u32` has between one and ten decimal digits, none of them blank.
pub proof fn lemma_digits_short(v: nat)
    requires
        v <= u32::MAX,
    ensures
        1 <= decimal_digits(v).len() <= 10,
        forall|i: int|
            0 <= i < decimal_digits(v).len() ==> !is_whitespace_spec(#[trigger] decimal_digits(v)[i]),
{
    assert(pow10(10) == 10000000000nat) by {
        reveal_with_fuel(pow10, 11);
    }
    lemma_digits_bound_k(v, 10);
    lemma_digits_not_space(v);
}

proof fn lemma_digits_not_space(v: nat)
    ensures
        decimal_digits(v).len() >= 1,
        forall|i: int|
            0 <= i < decimal_digits(v).len() ==> !is_whitespace_spec(#[trigger] decimal_digits(v)[i]),
    decreases v,
{
    if v >= 10 {
        lemma_digits_not_space(v / 10);
        let d = decimal_digits(v);
        assert forall|i: int| 0 <= i < d.len() implies !is_whitespace_spec(#[trigger] d[i]) by {
            if i < d.len() - 1 {
                assert(d[i] == decimal_digits(v / 10)[i]);
            }
        }
    }
}

proof fn lemma_digits_bound_k(v: nat, k: nat)
    requires
        k >= 1,
        v < pow10(k),
    ensures
        decimal_digits(v).len() <= k,
    decreases v,
{
    if v >= 10 {
        assert(k >= 2) by {
            if k == 1 {
                assert(pow10(1) == 10) by {
                    reveal_with_fuel(pow10, 2);
                }
            }
        }
        assert(v / 10 < pow10((k - 1) as nat)) by {
            assert(pow10(k) == 10 * pow10((k - 1) as nat));
        }
        lemma_digits_bound_k(v / 10, (k - 1) as nat);
    }
}

pub open spec fn pow10(k: nat) -> nat
    decreases k,
{
    if k == 0 {
        1
    } else {
        10 * pow10((k - 1) as nat)
    }
}

/// Draws a numbered badge centred on `center`.
pub fn draw_number(image: &mut CapturedImage, center: Point, value: u32, fill: Color, text: Color)
    requires
        old(image).wf(),
        old(image).width > 0,
        old(image).height > 0,
    ensures
        final(image).wf(),
        final(image).width == old(image).width,
        final(image).height == old(image).height,
        final(image).rgba@ == number_spec(
            old(image).rgba@,
            old(image).width,
            old(image).height,
            center,
            value,
            fill,
            text,
        ),
{
    let cx = center.x as i64;
    let cy = center.y as i64;
    let ghost disc = disc_rows(image.rgba@, image.width, image.height, cx as int, cy as int, cy - 12, cy + 13, fill);
    let mut y = cy - 12;
    while y <= cy + 12
        invariant
            image.wf(),
            image.width == old(image).width,
            image.height == old(image).height,
            cx == center.x,
            cy == center.y,
            cy - 12 <= y <= cy + 13,
            disc_rows(image.rgba@, image.width, image.height, cx as int, cy as int, y as int, cy + 13, fill) == disc,
        decreases cy + 13 - y,
    {
        let ghost row_start = image.rgba@;
        let mut x = cx - 12;
        while x <= cx + 12
            invariant
                image.wf(),
                image.width == old(image).width,
                image.height == old(image).height,
                cx == center.x,
                cy == center.y,
                cy - 12 <= y <= cy + 12,
                cx - 12 <= x <= cx + 13,
                disc_row(image.rgba@, image.width, image.height, cx as int, cy as int, x as int, cx + 13, y as int, fill)
                    == disc_row(row_start, image.width, image.height, cx as int, cy as int, cx - 12, cx + 13, y as int, fill),
            decreases cx + 13 - x,
        {
            let dx = x - cx;
            let dy = y - cy;
            proof {
                assert(dx * dx <= 144) by (nonlinear_arith)
                    requires
                        -12 <= dx <= 12,
                ;
                assert(dy * dy <= 144) by (nonlinear_arith)
                    requires
                        -12 <= dy <= 12,
                ;
                assert(dx * dx >= 0) by (nonlinear_arith);
                assert(dy * dy >= 0) by (nonlinear_arith);
            }
            if dx * dx + dy * dy <= 144 {
                set_pixel(image, x, y, fill);
            }
            x += 1;
        }
        y += 1;
    }
    let label = decimal_chars(value);
    proof {
        lemma_digits_short(value as nat);
    }
    let n = label.len() as i64;
    draw_text_chars(image, cx - n * 3, cy - 5, &label, text, 10);
}

/// Channel sums and pixel count of a block of the image.
pub struct ColorSums {
    pub r: int,
    pub g: int,
    pub b: int,
    pub a: int,
    pub count: int,
}

pub open spec fn zero_sums() -> ColorSums {
    ColorSums { r: 0, g: 0, b: 0, a: 0, count: 0 }
}

/// Adds pixel `(x, y)` to the sums when it lies in the image.
pub open spec fn add_pixel(s: ColorSums, img: Seq<u8>, width: u32, height: u32, x: int, y: int) -> ColorSums {
    if in_image(width, height, x, y) {
        let off = pixel_off(width, x, y);
        ColorSums {
            r: s.r + img[off],
            g: s.g + img[off + 1],
            b: s.b + img[off + 2],
            a: s.a + img[off + 3],
            count: s.count + 1,
        }
    } else {
        s
    }
}

/// Sums over pixels `xs..xe` of row `y`.
pub open spec fn row_sums(s: ColorSums, img: Seq<u8>, width: u32, height: u32, xs: int, xe: int, y: int) -> ColorSums
    decreases xe - xs,
{
    if xs >= xe {
        s
    } else {
        row_sums(add_pixel(s, img, width, height, xs, y), img, width, height, xs + 1, xe, y)
    }
}

/// Sums over the block of columns `xs..xe` and rows `ys..ye`.
pub open spec fn block_sums(
    s: ColorSums,
    img: Seq<u8>,
    width: u32,
    height: u32,
    xs: int,
    xe: int,
    ys: int,
    ye: int,
) -> ColorSums
    decreases ye - ys,
{
    if ys >= ye {
        s
    } else {
        block_sums(row_sums(s, img, width, height, xs, xe, ys), img, width, height, xs, xe, ys + 1, ye)
    }
}

/// The mean color of the image pixels in a block; near-black when the block
/// has none.
pub open spec fn average_spec(img: Seq<u8>, width: u32, height: u32, left: int, top: int, right: int, bottom: int) -> Color {
    let s = block_sums(zero_sums(), img, width, height, left, right, top, bottom);
    if s.count == 0 {
        Color { r: 20, g: 20, b: 20, a: 255 }
    } else {
        Color {
            r: (s.r / s.count) as u8,
            g: (s.g / s.count) as u8,
            b: (s.b / s.count) as u8,
            a: (s.a / s.count) as u8,
        }
    }
}

/// Sums stay within what `n` visited pixels can hold.
pub open spec fn sums_bounded(s: ColorSums, n: int) -> bool {
    &&& 0 <= s.count <= n
    &&& 0 <= s.r <= 255 * s.count
    &&& 0 <= s.g <= 255 * s.count
    &&& 0 <= s.b <= 255 * s.count
    &&& 0 <= s.a <= 255 * s.count
}

/// The mean color of the pixels in `left..right` x `top..bottom`.
fn average_color(image: &CapturedImage, left: i64, top: i64, right: i64, bottom: i64) -> (c: Color)
    requires
        image.wf(),
        0 <= left <= right <= image.width,
        0 <= top <= bottom <= image.height,
    ensures
        c == average_spec(image.rgba@, image.width, image.height, left as int, top as int, right as int, bottom as int),
{
    let mut r: u64 = 0;
    let mut g: u64 = 0;
    let mut b: u64 = 0;
    let mut a: u64 = 0;
    let mut count: u64 = 0;
    let ghost total = block_sums(zero_sums(), image.rgba@, image.width, image.height, left as int, right as int, top as int, bottom as int);
    proof {
        assert((right - left) * (bottom - top) <= image.width as int * image.height as int) by (nonlinear_arith)
            requires
                0 <= right - left <= image.width,
                0 <= bottom - top <= image.height,
        ;
        assert(0 <= (right - left) * (bottom - top)) by (nonlinear_arith)
            requires
                0 <= right - left,
                0 <= bottom - top,
        ;
    }
    let mut y = top;
    while y < bottom
        invariant
            image.wf(),
            0 <= left <= right <= image.width,
            0 <= top <= y <= bottom <= image.height,
            (right - left) * (bottom - top) <= image.width as int * image.height as int,
            sums_bounded(ColorSums { r: r as int, g: g as int, b: b as int, a: a as int, count: count as int }, (right - left) * (y - top)),
            block_sums(ColorSums { r: r as int, g: g as int, b: b as int, a: a as int, count: count as int }, image.rgba@, image.width, image.height, left as int, right as int, y as int, bottom as int)
                == total,
        decreases bottom - y,
    {
        proof {
            assert((right - left) * (y - top) + (right - left) <= (right - left) * (bottom - top)) by (nonlinear_arith)
                requires
                    0 <= right - left,
                    y < bottom,
            ;
        }
        let ghost row_start = ColorSums { r: r as int, g: g as int, b: b as int, a: a as int, count: count as int };
        let mut x = left;
        while x < right
            invariant
                image.wf(),
                0 <= left <= x <= right <= image.width,
                0 <= top <= y < bottom <= image.height,
                (right - left) * (y - top) + (right - left) <= image.width as int * image.height as int,
                sums_bounded(ColorSums { r: r as int, g: g as int, b: b as int, a: a as int, count: count as int }, (right - left) * (y - top) + (x - left)),
                row_sums(ColorSums { r: r as int, g: g as int, b: b as int, a: a as int, count: count as int }, image.rgba@, image.width, image.height, x as int, right as int, y as int)
                    == row_sums(row_start, image.rgba@, image.width, image.height, left as int, right as int, y as int),
            decreases right - x,
        {
            if let Some(offset) = pixel_offset(image, x, y) {
                r += image.rgba[offset] as u64;
                g += image.rgba[offset + 1] as u64;
                b += image.rgba[offset + 2] as u64;
                a += image.rgba[offset + 3] as u64;
                count += 1;
            }
            x += 1;
        }
        proof {
            assert((right - left) * (y - top) + (right - left) == (right - left) * (y + 1 - top)) by (nonlinear_arith);
        }
        y += 1;
    }
    if count == 0 {
        return Color::black();
    }
    Color { r: (r / count) as u8, g: (g / count) as u8, b: (b / count) as u8, a: (a / count) as u8 }
}


/// How far `a` still is below `b`.
pub open spec fn gap(a: int, b: int) -> int {
    if a >= b {
        0
    } else {
        b - a
    }
}

/// The block side a mosaic uses: at least 4 pixels.
pub open spec fn mosaic_block(block_size: u32) -> int {
    if block_size < 4 {
        4
    } else {
        block_size as int
    }
}

pub open spec fn min_int(a: int, b: int) -> int {
    if a < b {
        a
    } else {
        b
    }
}

/// The blocks of row band `y` from column `x` on: each block is painted
/// with the mean color it has when its turn comes.
pub open spec fn mosaic_cols(img: Seq<u8>, width: u32, height: u32, rect: Rect, block: int, x: int, y: int) -> Seq<u8>
    decreases gap(x, rect.x + rect.width),
    when block >= 1
{
    let right = rect.x + rect.width;
    let bottom = rect.y + rect.height;
    if x >= right {
        img
    } else {
        let br = min_int(x + block, right);
        let bb = min_int(y + block, bottom);
        let c = average_spec(img, width, height, x, y, br, bb);
        mosaic_cols(block_spec(img, width, height, x, br, y, bb, c), width, height, rect, block, x + block, y)
    }
}

/// The row bands of the mosaic from row `y` on.
pub open spec fn mosaic_rows(img: Seq<u8>, width: u32, height: u32, rect: Rect, block: int, y: int) -> Seq<u8>
    decreases gap(y, rect.y + rect.height),
    when block >= 1
{
    if y >= rect.y + rect.height {
        img
    } else {
        mosaic_rows(mosaic_cols(img, width, height, rect, block, rect.x as int, y), width, height, rect, block, y + block)
    }
}

/// Replaces every block of `rect` by its mean color.
pub open spec fn mosaic_spec(img: Seq<u8>, width: u32, height: u32, rect: Rect, block_size: u32) -> Seq<u8> {
    mosaic_rows(img, width, height, rect, mosaic_block(block_size), rect.y as int)
}

/// Pixelates `rect` into square blocks of side `block_size` (at least 4).
pub fn mosaic(image: &mut CapturedImage, rect: Rect, block_size: u32) -> (r: Result<()>)
    requires
        old(image).wf(),
        rect_check_fits(rect, old(image).width, old(image).height),
        block_size <= i32::MAX,
    ensures
        final(image).wf(),
        final(image).width == old(image).width,
        final(image).height == old(image).height,
        rect_inside(rect, old(image).width, old(image).height) ==> r is Ok && final(image).rgba@
            == mosaic_spec(old(image).rgba@, old(image).width, old(image).height, rect, block_size),
        !rect_inside(rect, old(image).width, old(image).height) ==> r == Err::<(), WinScreenError>(
            WinScreenError::InvalidRect(rect),
        ) && final(image).rgba@ == old(image).rgba@,
{
    validate_rect_for_image(image, rect)?;
    let block: i64 = if block_size < 4 {
        4
    } else {
        block_size as i64
    };
    let right = rect.x as i64 + rect.width as i64;
    let bottom = rect.y as i64 + rect.height as i64;
    let ghost goal = mosaic_spec(image.rgba@, image.width, image.height, rect, block_size);
    let mut y = rect.y as i64;
    while y < bottom
        invariant
            image.wf(),
            image.width == old(image).width,
            image.height == old(image).height,
            rect_inside(rect, image.width, image.height),
            block == mosaic_block(block_size),
            4 <= block <= i32::MAX,
            right == rect.x + rect.width,
            bottom == rect.y + rect.height,
            rect.y <= y,
            y < bottom + block,
            mosaic_rows(image.rgba@, image.width, image.height, rect, block as int, y as int) == goal,
        decreases gap(y as int, bottom as int),
    {
        let ghost band_start = image.rgba@;
        let mut x = rect.x as i64;
        while x < right
            invariant
                image.wf(),
                image.width == old(image).width,
                image.height == old(image).height,
                rect_inside(rect, image.width, image.height),
                4 <= block <= i32::MAX,
                right == rect.x + rect.width,
                bottom == rect.y + rect.height,
                rect.y <= y < bottom,
                rect.x <= x,
                x < right + block,
                mosaic_cols(image.rgba@, image.width, image.height, rect, block as int, x as int, y as int)
                    == mosaic_cols(band_start, image.width, image.height, rect, block as int, rect.x as int, y as int),
            decreases gap(x as int, right as int),
        {
            let block_right = if x + block < right {
                x + block
            } else {
                right
            };
            let block_bottom = if y + block < bottom {
                y + block
            } else {
                bottom
            };
            let color = average_color(image, x, y, block_right, block_bottom);
            fill_block(image, x, block_right, y, block_bottom, color);
            x += block;
        }
        y += block;
    }
    Ok(())
}

} // verus!
