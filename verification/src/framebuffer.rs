//! Pixel work on the display's frame buffer: four bytes per pixel (blue,
//! green, red, unused), rows `stride` bytes apart, all channels gray.

use vstd::prelude::*;
use crate::hal::{color, mxcfb_rect, Point2, Vector2};

verus! {

/// The shape of a frame buffer.
#[derive(PartialEq, Eq, Structural, Copy, Clone, Debug)]
pub struct FrameGeometry {
    pub width: u32,
    pub height: u32,
    pub stride: u32,
}

impl FrameGeometry {
    /// Each row holds its pixels, and every byte offset fits in `u32`.
    pub open spec fn wf(self) -> bool {
        &&& 4 * self.width <= self.stride
        &&& self.height * self.stride <= u32::MAX
    }
}

/// Where a pixel starts in the buffer.
pub open spec fn pixel_offset(geo: FrameGeometry, x: int, y: int) -> int {
    y * geo.stride + x * 4
}

/// The buffer with the pixel at `off` set to a gray value.
pub open spec fn pixel_written(buf: Seq<u8>, off: int, gray: u8) -> Seq<u8> {
    buf.update(off, gray).update(off + 1, gray).update(off + 2, gray).update(off + 3, 0xFFu8)
}

/// Setting one pixel: only pixels on the display and within the buffer are
/// written.
pub open spec fn spec_set_pixel(buf: Seq<u8>, geo: FrameGeometry, x: int, y: int, gray: u8) -> Seq<u8> {
    if x >= geo.width || y >= geo.height {
        buf
    } else {
        let off = pixel_offset(geo, x, y);
        if off + 3 >= buf.len() {
            buf
        } else {
            pixel_written(buf, off, gray)
        }
    }
}

/// Reading one pixel's gray value: white outside the display or buffer.
pub open spec fn spec_get_pixel(buf: Seq<u8>, geo: FrameGeometry, x: int, y: int) -> u8 {
    if x >= geo.width || y >= geo.height {
        255
    } else {
        let off = pixel_offset(geo, x, y);
        if off >= buf.len() {
            255
        } else {
            buf[off]
        }
    }
}

/// Writing the pixels `x..x1` of row `y`, those whose four bytes lie in the
/// buffer.
pub open spec fn fill_row(buf: Seq<u8>, geo: FrameGeometry, x: int, x1: int, y: int, gray: u8) -> Seq<u8>
    decreases x1 - x,
{
    if x >= x1 {
        buf
    } else {
        let off = y * geo.stride + x * 4;
        let b2 = if off + 3 < buf.len() {
            pixel_written(buf, off, gray)
        } else {
            buf
        };
        fill_row(b2, geo, x + 1, x1, y, gray)
    }
}

/// Writing the pixels `x0..x1` of the rows `y..y1`.
pub open spec fn fill_rows(buf: Seq<u8>, geo: FrameGeometry, x0: int, x1: int, y: int, y1: int, gray: u8) -> Seq<u8>
    decreases y1 - y,
{
    if y >= y1 {
        buf
    } else {
        fill_rows(fill_row(buf, geo, x0, x1, y, gray), geo, x0, x1, y + 1, y1, gray)
    }
}

/// Filling a rectangle, clipped to the display: from the position (at
/// least 0) to the far edge (at most the display's size).
pub open spec fn spec_fill_rect(buf: Seq<u8>, geo: FrameGeometry, pos: Point2<i32>, size: Vector2<u32>, gray: u8) -> Seq<u8> {
    let x0 = if pos.x > 0 {
        pos.x as int
    } else {
        0
    };
    let y0 = if pos.y > 0 {
        pos.y as int
    } else {
        0
    };
    let xe = (pos.x as u32) + size.x;
    let ye = (pos.y as u32) + size.y;
    let x1 = if xe < geo.width {
        xe
    } else {
        geo.width as int
    };
    let y1 = if ye < geo.height {
        ye
    } else {
        geo.height as int
    };
    fill_rows(buf, geo, x0, x1, y0, y1, gray)
}

/// The row of the display that a byte of the buffer belongs to.
pub open spec fn byte_row(geo: FrameGeometry, k: int) -> int {
    k / (geo.stride as int)
}

/// The column of the display that a byte of the buffer belongs to (past
/// the last column for the padding at a row's end).
pub open spec fn byte_column(geo: FrameGeometry, k: int) -> int {
    (k % (geo.stride as int)) / 4
}

/// Whether a byte of a buffer of length `len` belongs to a pixel of the
/// rectangle of columns `x0..x1` and rows `y0..y1` that lies on the display
/// and whose four bytes lie in the buffer.
pub open spec fn byte_in_rect(geo: FrameGeometry, len: int, k: int, x0: int, x1: int, y0: int, y1: int) -> bool {
    let y = byte_row(geo, k);
    let x = byte_column(geo, k);
    &&& geo.stride > 0
    &&& 0 <= k
    &&& y0 <= y < y1 && y < geo.height
    &&& x0 <= x < x1 && x < geo.width
    &&& pixel_offset(geo, x, y) + 3 < len
}

/// The value a painted byte takes: the gray value in the three color
/// bytes, `0xFF` in the fourth.
pub open spec fn painted_byte(geo: FrameGeometry, k: int, gray: u8) -> u8 {
    if (k % (geo.stride as int)) % 4 == 3 {
        0xFFu8
    } else {
        gray
    }
}

/// The bytes of a pixel on the display are exactly the bytes whose row and
/// column are the pixel's.
proof fn lemma_pixel_bytes(geo: FrameGeometry, x: int, y: int, k: int)
    requires
        geo.wf(),
        0 <= x < geo.width,
        0 <= y,
    ensures
        (pixel_offset(geo, x, y) <= k < pixel_offset(geo, x, y) + 4) <==> (0 <= k && byte_row(geo, k) == y
            && byte_column(geo, k) == x),
        pixel_offset(geo, x, y) <= k < pixel_offset(geo, x, y) + 4 ==> (k % (geo.stride as int)) % 4 == k
            - pixel_offset(geo, x, y),
{
    let s = geo.stride as int;
    assert(s >= 4 * x + 4);
    if pixel_offset(geo, x, y) <= k < pixel_offset(geo, x, y) + 4 {
        let r = 4 * x + (k - pixel_offset(geo, x, y));
        vstd::arithmetic::div_mod::lemma_fundamental_div_mod_converse(k, s, y, r);
        vstd::arithmetic::div_mod::lemma_fundamental_div_mod_converse(r, 4, x, k - pixel_offset(geo, x, y));
    }
    if 0 <= k && byte_row(geo, k) == y && byte_column(geo, k) == x {
        vstd::arithmetic::div_mod::lemma_fundamental_div_mod(k, s);
        vstd::arithmetic::div_mod::lemma_fundamental_div_mod(k % s, 4);
        assert(k == y * s + k % s);
        assert(k % s == x * 4 + (k % s) % 4);
        assert(0 <= (k % s) % 4 < 4);
    }
}

/// Writing pixels keeps the buffer's length.
proof fn lemma_fill_rows_len(buf: Seq<u8>, geo: FrameGeometry, x0: int, x1: int, y: int, y1: int, gray: u8)
    requires
        0 <= x0,
        0 <= y,
    ensures
        fill_rows(buf, geo, x0, x1, y, y1, gray).len() == buf.len(),
    decreases y1 - y,
{
    if y < y1 {
        lemma_fill_row_len(buf, geo, x0, x1, y, gray);
        lemma_fill_rows_len(fill_row(buf, geo, x0, x1, y, gray), geo, x0, x1, y + 1, y1, gray);
    }
}

/// Writing the pixels of a row keeps the buffer's length.
proof fn lemma_fill_row_len(buf: Seq<u8>, geo: FrameGeometry, x: int, x1: int, y: int, gray: u8)
    requires
        0 <= x,
        0 <= y,
    ensures
        fill_row(buf, geo, x, x1, y, gray).len() == buf.len(),
    decreases x1 - x,
{
    if x < x1 {
        let off = y * geo.stride + x * 4;
        assert(0 <= y * geo.stride) by (nonlinear_arith)
            requires
                0 <= y,
        ;
        let b2 = if off + 3 < buf.len() {
            pixel_written(buf, off, gray)
        } else {
            buf
        };
        lemma_fill_row_len(b2, geo, x + 1, x1, y, gray);
    }
}

/// Writing the pixels `x..x1` of row `y` paints exactly the bytes of those
/// pixels, where they lie in the buffer.
proof fn lemma_fill_row_bytes(buf: Seq<u8>, geo: FrameGeometry, x: int, x1: int, y: int, gray: u8, k: int)
    requires
        geo.wf(),
        0 <= x,
        x1 <= geo.width,
        0 <= y < geo.height,
        0 <= k < buf.len(),
    ensures
        fill_row(buf, geo, x, x1, y, gray).len() == buf.len(),
        fill_row(buf, geo, x, x1, y, gray)[k] == if byte_in_rect(geo, buf.len() as int, k, x, x1, y, y + 1) {
            painted_byte(geo, k, gray)
        } else {
            buf[k]
        },
    decreases x1 - x,
{
    if x < x1 {
        let off = y * geo.stride + x * 4;
        let b2 = if off + 3 < buf.len() {
            pixel_written(buf, off, gray)
        } else {
            buf
        };
        lemma_fill_row_bytes(b2, geo, x + 1, x1, y, gray, k);
        lemma_pixel_bytes(geo, x, y, k);
        if byte_row(geo, k) == y && byte_column(geo, k) == x {
            assert(off <= k < off + 4);
        }
    }
}

/// Writing the pixels `x0..x1` of the rows `y..y1` paints exactly the bytes
/// of those pixels, where they lie in the buffer.
proof fn lemma_fill_rows_bytes(buf: Seq<u8>, geo: FrameGeometry, x0: int, x1: int, y: int, y1: int, gray: u8, k: int)
    requires
        geo.wf(),
        0 <= x0,
        x1 <= geo.width,
        0 <= y,
        y1 <= geo.height,
        0 <= k < buf.len(),
    ensures
        fill_rows(buf, geo, x0, x1, y, y1, gray).len() == buf.len(),
        fill_rows(buf, geo, x0, x1, y, y1, gray)[k] == if byte_in_rect(geo, buf.len() as int, k, x0, x1, y, y1) {
            painted_byte(geo, k, gray)
        } else {
            buf[k]
        },
    decreases y1 - y,
{
    if y < y1 {
        let b2 = fill_row(buf, geo, x0, x1, y, gray);
        lemma_fill_row_bytes(buf, geo, x0, x1, y, gray, k);
        lemma_fill_rows_bytes(b2, geo, x0, x1, y + 1, y1, gray, k);
    }
}

/// Filling a rectangle paints exactly the pixels of the rectangle, clipped
/// to the display, whose bytes lie in the buffer: their three color bytes
/// take the gray value and their fourth byte `0xFF`; every other byte keeps
/// its value.
pub proof fn law_fill_rect_pixels(buf: Seq<u8>, geo: FrameGeometry, pos: Point2<i32>, size: Vector2<u32>, gray: u8, k: int)
    requires
        geo.wf(),
        0 <= k < buf.len(),
    ensures
        spec_fill_rect(buf, geo, pos, size, gray).len() == buf.len(),
        spec_fill_rect(buf, geo, pos, size, gray)[k] == if byte_in_rect(
            geo,
            buf.len() as int,
            k,
            if pos.x > 0 { pos.x as int } else { 0 },
            (pos.x as u32) + size.x,
            if pos.y > 0 { pos.y as int } else { 0 },
            (pos.y as u32) + size.y,
        ) {
            painted_byte(geo, k, gray)
        } else {
            buf[k]
        },
{
    let x0 = if pos.x > 0 { pos.x as int } else { 0 };
    let y0 = if pos.y > 0 { pos.y as int } else { 0 };
    let xe = (pos.x as u32) + size.x;
    let ye = (pos.y as u32) + size.y;
    let x1 = if xe < geo.width { xe } else { geo.width as int };
    let y1 = if ye < geo.height { ye } else { geo.height as int };
    lemma_fill_rows_bytes(buf, geo, x0, x1, y0, y1, gray, k);
}

/// Whether filling a rectangle at a position stays within `u32` offsets.
pub open spec fn fill_rect_ok(pos: Point2<i32>, size: Vector2<u32>) -> bool {
    (pos.x as u32) + size.x <= u32::MAX && (pos.y as u32) + size.y <= u32::MAX
}

/// Sets a single pixel to the brightness of a color.
pub fn set_pixel(buf: &mut [u8], geo: FrameGeometry, x: u32, y: u32, c: color)
    requires
        geo.wf(),
    ensures
        final(buf)@ == spec_set_pixel(old(buf)@, geo, x as int, y as int, c.as_u8_spec()),
{
    if x >= geo.width || y >= geo.height {
        return ;
    }
    proof {
        lemma_offset_fits(geo, x as int, y as int);
    }
    let offset = (y * geo.stride + x * 4) as usize;
    if offset + 3 >= buf.len() {
        return ;
    }
    let gray = c.as_u8();
    buf[offset] = gray;
    buf[offset + 1] = gray;
    buf[offset + 2] = gray;
    buf[offset + 3] = 0xFF;
}

/// Reads the gray value of a pixel; white outside the display.
pub fn get_pixel(buf: &[u8], geo: FrameGeometry, x: u32, y: u32) -> (r: u8)
    requires
        geo.wf(),
    ensures
        r == spec_get_pixel(buf@, geo, x as int, y as int),
{
    if x >= geo.width || y >= geo.height {
        return 255;
    }
    proof {
        lemma_offset_fits(geo, x as int, y as int);
    }
    let offset = (y * geo.stride + x * 4) as usize;
    if offset >= buf.len() {
        return 255;
    }
    buf[offset]
}

/// A pixel's offset on the display fits in `u32`.
pub proof fn lemma_offset_fits(geo: FrameGeometry, x: int, y: int)
    requires
        geo.wf(),
        0 <= x < geo.width,
        0 <= y < geo.height,
    ensures
        0 <= y * geo.stride,
        y * geo.stride + x * 4 + 3 < geo.height * geo.stride,
        geo.height * geo.stride <= u32::MAX,
{
    assert(y * geo.stride <= (geo.height - 1) * geo.stride) by (nonlinear_arith)
        requires
            0 <= y < geo.height,
            geo.stride >= 0,
    ;
    assert((geo.height - 1) * geo.stride + geo.stride == geo.height * geo.stride) by (nonlinear_arith);
    assert(0 <= y * geo.stride) by (nonlinear_arith)
        requires
            0 <= y,
            geo.stride >= 0,
    ;
}

/// Fills the whole buffer with white, four bytes at a time; bytes after
/// the last full group of four are left alone.
pub fn clear(buf: &mut [u8])
    ensures
        final(buf)@.len() == old(buf)@.len(),
        forall|i: int|
            0 <= i < old(buf)@.len() ==> #[trigger] final(buf)@[i] == if i < old(buf)@.len() - old(
                buf,
            )@.len() % 4 {
                0xFFu8
            } else {
                old(buf)@[i]
            },
{
    let n = buf.len();
    let full = n - n % 4;
    let mut i: usize = 0;
    while i < full
        invariant
            n == buf@.len(),
            n == old(buf)@.len(),
            full == n - n % 4,
            i <= full,
            i % 4 == 0,
            forall|k: int| 0 <= k < i ==> buf@[k] == 0xFFu8,
            forall|k: int| i <= k < n ==> buf@[k] == old(buf)@[k],
        decreases full - i,
    {
        buf[i] = 0xFF;
        buf[i + 1] = 0xFF;
        buf[i + 2] = 0xFF;
        buf[i + 3] = 0xFF;
        i = i + 4;
    }
}

/// Fills a rectangle with the brightness of a color, clipped to the
/// display.
pub fn fill_rect(buf: &mut [u8], geo: FrameGeometry, pos: Point2<i32>, size: Vector2<u32>, c: color)
    requires
        geo.wf(),
        fill_rect_ok(pos, size),
    ensures
        final(buf)@ == spec_fill_rect(old(buf)@, geo, pos, size, c.as_u8_spec()),
        final(buf)@.len() == old(buf)@.len(),
        forall|k: int|
            0 <= k < old(buf)@.len() ==> #[trigger] final(buf)@[k] == if byte_in_rect(
                geo,
                old(buf)@.len() as int,
                k,
                if pos.x > 0 { pos.x as int } else { 0 },
                (pos.x as u32) + size.x,
                if pos.y > 0 { pos.y as int } else { 0 },
                (pos.y as u32) + size.y,
            ) {
                painted_byte(geo, k, c.as_u8_spec())
            } else {
                old(buf)@[k]
            },
{
    let x0: u32 = if pos.x > 0 {
        pos.x as u32
    } else {
        0
    };
    let y0: u32 = if pos.y > 0 {
        pos.y as u32
    } else {
        0
    };
    let xe = pos.x as u32 + size.x;
    let ye = pos.y as u32 + size.y;
    let x1 = if xe < geo.width {
        xe
    } else {
        geo.width
    };
    let y1 = if ye < geo.height {
        ye
    } else {
        geo.height
    };
    let gray = c.as_u8();
    let ghost target = spec_fill_rect(old(buf)@, geo, pos, size, gray);
    let mut y = y0;
    while y < y1
        invariant
            geo.wf(),
            y1 <= geo.height,
            x1 <= geo.width,
            y0 <= y,
            y <= y1 || y == y0,
            fill_rows(buf@, geo, x0 as int, x1 as int, y as int, y1 as int, gray) == target,
        decreases y1 - y,
    {
        let ghost row_start = buf@;
        let mut x = x0;
        while x < x1
            invariant
                geo.wf(),
                y < y1,
                y1 <= geo.height,
                x1 <= geo.width,
                x0 <= x,
                x <= x1 || x == x0,
                fill_row(buf@, geo, x as int, x1 as int, y as int, gray) == fill_row(
                    row_start,
                    geo,
                    x0 as int,
                    x1 as int,
                    y as int,
                    gray,
                ),
                fill_rows(fill_row(row_start, geo, x0 as int, x1 as int, y as int, gray), geo, x0 as int, x1 as int, y + 1, y1 as int, gray) == target,
            decreases x1 - x,
        {
            proof {
                lemma_offset_fits(geo, x as int, y as int);
            }
            let offset = (y * geo.stride) as usize + (x * 4) as usize;
            if offset + 3 < buf.len() {
                buf[offset] = gray;
                buf[offset + 1] = gray;
                buf[offset + 2] = gray;
                buf[offset + 3] = 0xFF;
            }
            x = x + 1;
        }
        y = y + 1;
    }
    proof {
        assert forall|k: int| 0 <= k < old(buf)@.len() implies #[trigger] buf@[k] == if byte_in_rect(
            geo,
            old(buf)@.len() as int,
            k,
            if pos.x > 0 { pos.x as int } else { 0 },
            (pos.x as u32) + size.x,
            if pos.y > 0 { pos.y as int } else { 0 },
            (pos.y as u32) + size.y,
        ) {
            painted_byte(geo, k, c.as_u8_spec())
        } else {
            old(buf)@[k]
        } by {
            law_fill_rect_pixels(old(buf)@, geo, pos, size, c.as_u8_spec(), k);
        }
        let x0 = if pos.x > 0 { pos.x as int } else { 0 };
        let y0 = if pos.y > 0 { pos.y as int } else { 0 };
        let xe = (pos.x as u32) + size.x;
        let ye = (pos.y as u32) + size.y;
        let xa = if xe < geo.width { xe } else { geo.width as int };
        let ya = if ye < geo.height { ye } else { geo.height as int };
        lemma_fill_rows_len(old(buf)@, geo, x0, xa, y0, ya, c.as_u8_spec());
    }
}

/// The gray values of the pixels `x..x1` of row `y`, each three times.
pub open spec fn dump_row(buf: Seq<u8>, geo: FrameGeometry, x: int, x1: int, y: int) -> Seq<u8>
    decreases x1 - x,
{
    if x >= x1 {
        Seq::empty()
    } else {
        let g = spec_get_pixel(buf, geo, x, y);
        seq![g, g, g] + dump_row(buf, geo, x + 1, x1, y)
    }
}

/// The gray values of the rows `y..y1`, columns `x0..x1`, row by row.
pub open spec fn dump_rows(buf: Seq<u8>, geo: FrameGeometry, x0: int, x1: int, y: int, y1: int) -> Seq<u8>
    decreases y1 - y,
{
    if y >= y1 {
        Seq::empty()
    } else {
        dump_row(buf, geo, x0, x1, y) + dump_rows(buf, geo, x0, x1, y + 1, y1)
    }
}

/// Reads back the pixels of a region as RGB bytes, three per pixel, row
/// by row; pixels off the display read as white.
pub fn dump_region(buf: &[u8], geo: FrameGeometry, rect: mxcfb_rect) -> (r: Option<Vec<u8>>)
    requires
        geo.wf(),
        rect.top + rect.height <= u32::MAX,
        rect.left + rect.width <= u32::MAX,
        rect.width * rect.height * 3 <= u32::MAX,
    ensures
        r matches Some(data) && data@ == dump_rows(
            buf@,
            geo,
            rect.left as int,
            rect.left + rect.width,
            rect.top as int,
            rect.top + rect.height,
        ),
{
    let mut data: Vec<u8> = Vec::with_capacity((rect.width * rect.height * 3) as usize);
    let x1 = rect.left + rect.width;
    let y1 = rect.top + rect.height;
    let ghost total = dump_rows(buf@, geo, rect.left as int, x1 as int, rect.top as int, y1 as int);
    let mut y = rect.top;
    while y < y1
        invariant
            geo.wf(),
            x1 == rect.left + rect.width,
            rect.top <= y <= y1,
            data@ + dump_rows(buf@, geo, rect.left as int, x1 as int, y as int, y1 as int) == total,
        decreases y1 - y,
    {
        let mut x = rect.left;
        while x < x1
            invariant
                geo.wf(),
                y < y1,
                rect.left <= x <= x1,
                data@ + dump_row(buf@, geo, x as int, x1 as int, y as int) + dump_rows(
                    buf@,
                    geo,
                    rect.left as int,
                    x1 as int,
                    y + 1,
                    y1 as int,
                ) == total,
            decreases x1 - x,
        {
            let gray = get_pixel(buf, geo, x, y);
            let ghost before = data@;
            data.push(gray);
            data.push(gray);
            data.push(gray);
            proof {
                let g = gray;
                assert(data@ == before + seq![g, g, g]);
                let rest = dump_row(buf@, geo, x + 1, x1 as int, y as int);
                assert(before + (seq![g, g, g] + rest) == (before + seq![g, g, g]) + rest);
            }
            x = x + 1;
        }
        proof {
            assert(dump_row(buf@, geo, x as int, x1 as int, y as int) == Seq::<u8>::empty());
            assert(data@ + Seq::<u8>::empty() == data@);
        }
        y = y + 1;
    }
    proof {
        assert(data@ + Seq::<u8>::empty() == data@);
    }
    Some(data)
}

/// Drawing a rectangle's border: the top, bottom, left and right bands,
/// in that order.
pub open spec fn spec_draw_rect(buf: Seq<u8>, geo: FrameGeometry, pos: Point2<i32>, size: Vector2<u32>, border: u32, gray: u8) -> Seq<u8> {
    let b1 = spec_fill_rect(buf, geo, pos, Vector2 { x: size.x, y: border }, gray);
    let b2 = spec_fill_rect(
        b1,
        geo,
        Point2 { x: pos.x, y: (pos.y + size.y - border) as i32 },
        Vector2 { x: size.x, y: border },
        gray,
    );
    let b3 = spec_fill_rect(b2, geo, pos, Vector2 { x: border, y: size.y }, gray);
    spec_fill_rect(
        b3,
        geo,
        Point2 { x: (pos.x + size.x - border) as i32, y: pos.y },
        Vector2 { x: border, y: size.y },
        gray,
    )
}

/// The inputs for which drawing a border stays within `i32` and `u32`.
pub open spec fn draw_rect_ok(pos: Point2<i32>, size: Vector2<u32>, border: u32) -> bool {
    &&& size.x <= i32::MAX && size.y <= i32::MAX && border <= i32::MAX
    &&& i32::MIN <= pos.y + size.y <= i32::MAX
    &&& i32::MIN <= pos.x + size.x <= i32::MAX
    &&& i32::MIN <= pos.y + size.y - border <= i32::MAX
    &&& i32::MIN <= pos.x + size.x - border <= i32::MAX
    &&& fill_rect_ok(pos, Vector2 { x: size.x, y: border })
    &&& fill_rect_ok(Point2 { x: pos.x, y: (pos.y + size.y - border) as i32 }, Vector2 { x: size.x, y: border })
    &&& fill_rect_ok(pos, Vector2 { x: border, y: size.y })
    &&& fill_rect_ok(Point2 { x: (pos.x + size.x - border) as i32, y: pos.y }, Vector2 { x: border, y: size.y })
}

/// Draws the border of a rectangle, `border_px` wide.
pub fn draw_rect(buf: &mut [u8], geo: FrameGeometry, pos: Point2<i32>, size: Vector2<u32>, border_px: u32, c: color)
    requires
        geo.wf(),
        draw_rect_ok(pos, size, border_px),
    ensures
        final(buf)@ == spec_draw_rect(old(buf)@, geo, pos, size, border_px, c.as_u8_spec()),
{
    let x = pos.x;
    let y = pos.y;
    let w = size.x as i32;
    let h = size.y as i32;
    // Top
    fill_rect(buf, geo, Point2 { x, y }, Vector2 { x: size.x, y: border_px }, c);
    // Bottom
    fill_rect(buf, geo, Point2 { x, y: y + h - border_px as i32 }, Vector2 { x: size.x, y: border_px }, c);
    // Left
    fill_rect(buf, geo, Point2 { x, y }, Vector2 { x: border_px, y: size.y }, c);
    // Right
    fill_rect(buf, geo, Point2 { x: x + w - border_px as i32, y }, Vector2 { x: border_px, y: size.y }, c);
}

/// The gray value of an RGB pixel: the mean of its channels.
pub open spec fn rgb_gray(img: Seq<u8>, i: int) -> u8 {
    ((img[3 * i] + img[3 * i + 1] + img[3 * i + 2]) / 3) as u8
}

/// Drawing the pixels `ix..w` of image row `iy`, at display row `dy`.
pub open spec fn image_row(buf: Seq<u8>, geo: FrameGeometry, img: Seq<u8>, w: int, ix: int, iy: int, px: int, dy: int) -> Seq<u8>
    decreases w - ix,
{
    if ix >= w {
        buf
    } else {
        let dx = px + ix;
        let b2 = if dx < 0 || dx >= geo.width {
            buf
        } else {
            spec_set_pixel(buf, geo, dx, dy, rgb_gray(img, iy * w + ix))
        };
        image_row(b2, geo, img, w, ix + 1, iy, px, dy)
    }
}

/// Drawing the image rows `iy..h` at position (`px`, `py`).
pub open spec fn image_rows(buf: Seq<u8>, geo: FrameGeometry, img: Seq<u8>, w: int, h: int, iy: int, px: int, py: int) -> Seq<u8>
    decreases h - iy,
{
    if iy >= h {
        buf
    } else {
        let dy = py + iy;
        let b2 = if dy < 0 || dy >= geo.height {
            buf
        } else {
            image_row(buf, geo, img, w, 0, iy, px, dy)
        };
        image_rows(b2, geo, img, w, h, iy + 1, px, py)
    }
}

/// Draws an RGB image (three bytes per pixel, row by row) in gray, with
/// its top left corner at `pos`; pixels off the display are skipped.
pub fn draw_image(buf: &mut [u8], geo: FrameGeometry, img: &[u8], img_w: u32, img_h: u32, pos: Point2<i32>)
    requires
        geo.wf(),
        geo.width <= i32::MAX && geo.height <= i32::MAX,
        img@.len() == 3 * img_w * img_h,
        img_w <= i32::MAX && img_h <= i32::MAX,
        pos.x + img_w <= i32::MAX,
        pos.y + img_h <= i32::MAX,
    ensures
        final(buf)@ == image_rows(old(buf)@, geo, img@, img_w as int, img_h as int, 0, pos.x as int, pos.y as int),
{
    let ghost target = image_rows(old(buf)@, geo, img@, img_w as int, img_h as int, 0, pos.x as int, pos.y as int);
    let img_len = img.len();
    let mut iy: u32 = 0;
    while iy < img_h
        invariant
            geo.wf(),
            geo.width <= i32::MAX && geo.height <= i32::MAX,
            img@.len() == 3 * img_w * img_h,
            img_len == img@.len(),
            img_w <= i32::MAX && img_h <= i32::MAX,
            pos.x + img_w <= i32::MAX,
            pos.y + img_h <= i32::MAX,
            iy <= img_h,
            image_rows(buf@, geo, img@, img_w as int, img_h as int, iy as int, pos.x as int, pos.y as int) == target,
        decreases img_h - iy,
    {
        let dy = pos.y + iy as i32;
        if !(dy < 0 || dy >= geo.height as i32) {
            let ghost row_start = buf@;
            let mut ix: u32 = 0;
            while ix < img_w
                invariant
                    geo.wf(),
                    geo.width <= i32::MAX && geo.height <= i32::MAX,
                    img@.len() == 3 * img_w * img_h,
                    img_len == img@.len(),
                    img_w <= i32::MAX && img_h <= i32::MAX,
                    pos.x + img_w <= i32::MAX,
                    iy < img_h,
                    0 <= dy < geo.height,
                    dy == pos.y + iy,
                    ix <= img_w,
                    image_row(buf@, geo, img@, img_w as int, ix as int, iy as int, pos.x as int, dy as int)
                        == image_row(row_start, geo, img@, img_w as int, 0, iy as int, pos.x as int, dy as int),
                decreases img_w - ix,
            {
                let dx = pos.x + ix as i32;
                if !(dx < 0 || dx >= geo.width as i32) {
                    proof {
                        lemma_image_index(img_w as int, img_h as int, ix as int, iy as int);
                    }
                    let i = (iy as usize * img_w as usize + ix as usize) * 3;
                    let gray = ((img[i] as u16 + img[i + 1] as u16 + img[i + 2] as u16) / 3) as u8;
                    set_pixel(buf, geo, dx as u32, dy as u32, color::GRAY(gray));
                }
                ix = ix + 1;
            }
        }
        iy = iy + 1;
    }
}

/// Painting the brush row `y`: columns `x + dx2` for `dx2` up to `hw`.
pub open spec fn brush_row(buf: Seq<u8>, geo: FrameGeometry, x: int, y: int, dx2: int, hw: int, gray: u8) -> Seq<u8>
    decreases hw + 1 - dx2,
{
    if dx2 > hw {
        buf
    } else {
        let b2 = spec_set_pixel(buf, geo, ((x + dx2) as u32) as int, (y as u32) as int, gray);
        brush_row(b2, geo, x, y, dx2 + 1, hw, gray)
    }
}

/// Painting the brush rows `y + dy2` for `dy2` up to `hw`.
pub open spec fn brush_rows(buf: Seq<u8>, geo: FrameGeometry, x: int, y: int, dy2: int, hw: int, gray: u8) -> Seq<u8>
    decreases hw + 1 - dy2,
{
    if dy2 > hw {
        buf
    } else {
        brush_rows(brush_row(buf, geo, x, y + dy2, -hw, hw, gray), geo, x, y, dy2 + 1, hw, gray)
    }
}

/// Painting a square brush of half width `hw` centred on (`x`, `y`).
pub open spec fn brush(buf: Seq<u8>, geo: FrameGeometry, x: int, y: int, hw: int, gray: u8) -> Seq<u8> {
    brush_rows(buf, geo, x, y, -hw, hw, gray)
}

/// The steps of Bresenham's line from (`x`, `y`) with error term `err`
/// towards (`tx`, `ty`): the brush is painted at each point; at most `fuel`
/// further steps are taken.
pub open spec fn line_steps(
    buf: Seq<u8>,
    geo: FrameGeometry,
    x: int,
    y: int,
    err: int,
    tx: int,
    ty: int,
    dx: int,
    dy: int,
    sx: int,
    sy: int,
    hw: int,
    gray: u8,
    fuel: nat,
) -> Seq<u8>
    decreases fuel,
{
    let b = brush(buf, geo, x, y, hw, gray);
    if (x == tx && y == ty) || fuel == 0 {
        b
    } else {
        let e2 = 2 * err;
        let err1 = if e2 >= dy {
            err + dy
        } else {
            err
        };
        let x1 = if e2 >= dy {
            x + sx
        } else {
            x
        };
        let err2 = if e2 <= dx {
            err1 + dx
        } else {
            err1
        };
        let y1 = if e2 <= dx {
            y + sy
        } else {
            y
        };
        line_steps(b, geo, x1, y1, err2, tx, ty, dx, dy, sx, sy, hw, gray, (fuel - 1) as nat)
    }
}

/// Half the brush width, as the display code computes it: the width taken
/// as an `i32`, halved towards zero.
pub open spec fn half_width(width: u32) -> int {
    if width <= i32::MAX {
        width as int / 2
    } else {
        -((0x1_0000_0000 - width) / 2)
    }
}

/// Drawing a line of the given brush width from one point to another with
/// Bresenham's algorithm.
pub open spec fn spec_draw_line(buf: Seq<u8>, geo: FrameGeometry, from: Point2<i32>, to: Point2<i32>, width: u32, gray: u8) -> Seq<u8> {
    let dx = if to.x >= from.x { to.x - from.x } else { from.x - to.x };
    let dy = -(if to.y >= from.y { to.y - from.y } else { from.y - to.y });
    let sx = if from.x < to.x { 1int } else { -1int };
    let sy = if from.y < to.y { 1int } else { -1int };
    line_steps(buf, geo, from.x as int, from.y as int, dx + dy, to.x as int, to.y as int, dx, dy, sx, sy, half_width(width), gray, (dx - dy) as nat)
}

/// Coordinates small enough for the line arithmetic.
pub open spec fn line_coord_ok(v: i32) -> bool {
    -0x800_0000 <= v <= 0x800_0000
}

fn paint_brush(buf: &mut [u8], geo: FrameGeometry, x: i32, y: i32, half_w: i32, c: color)
    requires
        geo.wf(),
        -0x1000_0000 <= x <= 0x1000_0000,
        -0x1000_0000 <= y <= 0x1000_0000,
        -0x4000_0000 <= half_w <= 0x4000_0000,
    ensures
        final(buf)@ == brush(old(buf)@, geo, x as int, y as int, half_w as int, c.as_u8_spec()),
{
    let ghost gray = c.as_u8_spec();
    let ghost target = brush(old(buf)@, geo, x as int, y as int, half_w as int, gray);
    let mut dy2: i32 = -half_w;
    while dy2 <= half_w
        invariant
            geo.wf(),
            -0x1000_0000 <= x <= 0x1000_0000,
            -0x1000_0000 <= y <= 0x1000_0000,
            -0x4000_0000 <= half_w <= 0x4000_0000,
            -half_w <= dy2 <= half_w + 1 || dy2 == -half_w,
            gray == c.as_u8_spec(),
            brush_rows(buf@, geo, x as int, y as int, dy2 as int, half_w as int, gray) == target,
        decreases half_w + 1 - dy2,
    {
        let ghost row_start = buf@;
        let mut dx2: i32 = -half_w;
        while dx2 <= half_w
            invariant
                geo.wf(),
                -0x1000_0000 <= x <= 0x1000_0000,
                -0x1000_0000 <= y <= 0x1000_0000,
                -0x4000_0000 <= half_w <= 0x4000_0000,
                -half_w <= dy2 <= half_w,
                -half_w <= dx2 <= half_w + 1,
                gray == c.as_u8_spec(),
                brush_row(buf@, geo, x as int, y + dy2, dx2 as int, half_w as int, gray) == brush_row(
                    row_start,
                    geo,
                    x as int,
                    y + dy2,
                    -half_w as int,
                    half_w as int,
                    gray,
                ),
            decreases half_w + 1 - dx2,
        {
            set_pixel(buf, geo, (x + dx2) as u32, (y + dy2) as u32, c);
            dx2 = dx2 + 1;
        }
        dy2 = dy2 + 1;
    }
}

/// Draws a line from one point to another with a square brush of the given
/// width, by Bresenham's algorithm.
pub fn draw_line(buf: &mut [u8], geo: FrameGeometry, from: Point2<i32>, to: Point2<i32>, width: u32, c: color)
    requires
        geo.wf(),
        line_coord_ok(from.x) && line_coord_ok(from.y) && line_coord_ok(to.x) && line_coord_ok(to.y),
    ensures
        final(buf)@ == spec_draw_line(old(buf)@, geo, from, to, width, c.as_u8_spec()),
{
    let dx: i32 = if to.x >= from.x {
        to.x - from.x
    } else {
        from.x - to.x
    };
    let dy: i32 = -(if to.y >= from.y {
        to.y - from.y
    } else {
        from.y - to.y
    });
    let sx: i32 = if from.x < to.x {
        1
    } else {
        -1
    };
    let sy: i32 = if from.y < to.y {
        1
    } else {
        -1
    };
    let mut err = dx + dy;
    let mut x = from.x;
    let mut y = from.y;
    let half_w: i32 = if width <= 0x7FFF_FFFF {
        (width / 2) as i32
    } else {
        -(((0x1_0000_0000u64 - width as u64) / 2) as i32)
    };
    let ghost gray = c.as_u8_spec();
    let ghost DX = dx as int;
    let ghost DY = -dy as int;
    let ghost target = spec_draw_line(old(buf)@, geo, from, to, width, gray);
    let ghost mut fuel: nat = (dx - dy) as nat;
    let ghost mut a: int = 0;
    let ghost mut b: int = 0;
    let mut done = false;
    while !done
        invariant
            geo.wf(),
            line_coord_ok(from.x) && line_coord_ok(from.y) && line_coord_ok(to.x) && line_coord_ok(to.y),
            gray == c.as_u8_spec(),
            DX == dx && DY == -dy && DX >= 0 && DY >= 0,
            DX == (if to.x >= from.x { to.x - from.x } else { from.x - to.x }),
            DY == (if to.y >= from.y { to.y - from.y } else { from.y - to.y }),
            sx == (if from.x < to.x { 1int } else { -1int }),
            sy == (if from.y < to.y { 1int } else { -1int }),
            half_w == half_width(width),
            0 <= a <= DX,
            0 <= b <= DY,
            x == (if from.x < to.x { from.x + a } else { from.x - a }),
            y == (if from.y < to.y { from.y + b } else { from.y - b }),
            err == DX * (1 + b) - DY * (1 + a),
            -3 * DY <= 2 * err <= 3 * DX,
            fuel >= (DX - a) + (DY - b),
            !done ==> line_steps(buf@, geo, x as int, y as int, err as int, to.x as int, to.y as int, dx as int, dy as int, sx as int, sy as int, half_w as int, gray, fuel) == target,
            done ==> buf@ == target,
        decreases 2 * ((DX - a) + (DY - b)) + if done { 0int } else { 1int },
    {
        paint_brush(buf, geo, x, y, half_w, c);
        if x == to.x && y == to.y {
            done = true;
        } else {
            proof {
                lemma_bresenham_step(DX, DY, a, b, err as int);
                lemma_err_steps(DX, DY, a, b);
            }
            let e2 = 2 * err;
            if e2 >= dy {
                err = err + dy;
                x = x + sx;
                proof {
                    a = a + 1;
                }
            }
            if e2 <= dx {
                err = err + dx;
                y = y + sy;
                proof {
                    b = b + 1;
                }
            }
            proof {
                fuel = (fuel - 1) as nat;
            }
        }
    }
}

/// One step of Bresenham's line never passes the end point, always moves,
/// and keeps the error term within bounds.
pub proof fn lemma_bresenham_step(DX: int, DY: int, a: int, b: int, err: int)
    requires
        DX >= 0,
        DY >= 0,
        0 <= a <= DX,
        0 <= b <= DY,
        a < DX || b < DY,
        err == DX * (1 + b) - DY * (1 + a),
        -3 * DY <= 2 * err <= 3 * DX,
    ensures
        2 * err >= -DY ==> a < DX,
        2 * err <= DX ==> b < DY,
        2 * err >= -DY || 2 * err <= DX,
        ({
            let e1 = if 2 * err >= -DY { err - DY } else { err };
            let e2 = if 2 * err <= DX { e1 + DX } else { e1 };
            -3 * DY <= 2 * e2 <= 3 * DX
        }),
{
    if a == DX && 2 * err >= -DY {
        assert(DX * (1 + b) == DX + DX * b) by (nonlinear_arith);
        assert(DY * (1 + a) == DY + DY * a) by (nonlinear_arith);
        assert(DX * b <= DX * (DY - 1)) by (nonlinear_arith)
            requires
                b <= DY - 1,
                DX >= 0,
        ;
        assert(DX * (DY - 1) == DX * DY - DX) by (nonlinear_arith);
        assert(DY * DX == DX * DY) by (nonlinear_arith);
        assert(2 * err < -DY);
    }
    if b == DY && 2 * err <= DX {
        assert(DX * (1 + b) == DX + DX * b) by (nonlinear_arith);
        assert(DY * (1 + a) == DY + DY * a) by (nonlinear_arith);
        assert(DY * a <= DY * (DX - 1)) by (nonlinear_arith)
            requires
                a <= DX - 1,
                DY >= 0,
        ;
        assert(DY * (DX - 1) == DY * DX - DY) by (nonlinear_arith);
        assert(DY * DX == DX * DY) by (nonlinear_arith);
        assert(2 * err > DX);
    }
}

/// How the error term changes with a step in x or in y.
pub proof fn lemma_err_steps(DX: int, DY: int, a: int, b: int)
    ensures
        DX * (1 + b) - DY * (1 + (a + 1)) == DX * (1 + b) - DY * (1 + a) - DY,
        DX * (1 + (b + 1)) - DY * (1 + a) == DX * (1 + b) - DY * (1 + a) + DX,
        DX * (1 + (b + 1)) - DY * (1 + (a + 1)) == DX * (1 + b) - DY * (1 + a) - DY + DX,
{
    assert(DY * (1 + (a + 1)) == DY * (1 + a) + DY) by (nonlinear_arith);
    assert(DX * (1 + (b + 1)) == DX * (1 + b) + DX) by (nonlinear_arith);
}

/// An image pixel's bytes lie in the image.
pub proof fn lemma_image_index(w: int, h: int, ix: int, iy: int)
    requires
        0 <= ix < w,
        0 <= iy < h,
    ensures
        0 <= iy * w + ix < w * h,
        0 <= iy * w <= iy * w + ix,
        (iy * w + ix) * 3 + 2 < 3 * w * h,
        (iy * w + ix) * 3 == 3 * (iy * w + ix),
{
    assert(iy * w + ix < w * h) by (nonlinear_arith)
        requires
            0 <= ix < w,
            0 <= iy < h,
    ;
    assert(0 <= iy * w) by (nonlinear_arith)
        requires
            0 <= iy,
            0 <= w,
    ;
    assert(3 * w * h == 3 * (w * h)) by (nonlinear_arith);
}

} // verus!
