//! Frame buffer of the nice!view, a Sharp LS011B7DH03 memory LCD (160 x 68 pixels).
//!
//! The panel takes one SPI burst per refresh: a command byte (write, with the VCOM
//! bit), then for every line its address (the 1-based line number, bit-reversed),
//! 20 bytes of pixels (most significant bit first, a 0 bit is black) and a 0 trailer
//! byte, and a final 0 byte. [`NiceView`] keeps that burst ready in memory: drawing
//! only touches pixel bits, so the framing bytes always stay valid.
//!
//! The status screen is drawn in portrait (68 wide, 160 high); [`native_x`] and
//! [`native_y`] map its coordinates onto the panel's own.
use vstd::prelude::*;

use crate::time::{millis_to_ticks, ticks_from_millis, ticks_since};

verus! {

/// The screen is used rotated by a quarter turn (68 wide, 160 high).
pub const PORTRAIT: bool = true;

/// Turns the picture upside down.
pub const FLIP: bool = false;

/// Swaps black and white.
pub const INVERT: bool = false;

/// Pixels per panel line.
pub const NATIVE_W: usize = 160;

/// Panel lines.
pub const NATIVE_H: usize = 68;

/// Pixel bytes per panel line.
pub const LINE_BYTES: usize = NATIVE_W / 8;

/// Bytes per panel line in the burst: address, pixels, trailer.
pub const STRIDE: usize = LINE_BYTES + 2;

/// Bytes of the whole burst: command, lines, final byte.
pub const FRAME_LEN: usize = 1 + NATIVE_H * STRIDE + 1;

/// Command bit: write lines.
pub const CMD_WRITE: u8 = 0x80;

/// Command bit: VCOM polarity.
pub const CMD_VCOM: u8 = 0x40;

/// VCOM is toggled about once per this many milliseconds, however often the screen
/// is redrawn.
pub const VCOM_PERIOD_MS: u64 = 1000;

/// The colour of a pixel on a two-colour display.
#[derive(Clone, Copy, Debug, PartialEq, Eq, Structural)]
pub enum BinaryColor {
    Off,
    On,
}

/// A point in the status screen's coordinates.
#[derive(Clone, Copy, Debug, PartialEq, Eq, Structural)]
pub struct Point {
    pub x: i32,
    pub y: i32,
}

/// A point and the colour to paint it.
#[derive(Clone, Copy, Debug, PartialEq, Eq, Structural)]
pub struct Pixel(pub Point, pub BinaryColor);

/// The display: the burst sent to the panel and the VCOM state.
pub struct NiceView {
    frame: Vec<u8>,
    vcom: bool,
    last_vcom: u64,
}

/// Width of the status screen.
pub open spec fn logical_width() -> int {
    if PORTRAIT { NATIVE_H as int } else { NATIVE_W as int }
}

/// Height of the status screen.
pub open spec fn logical_height() -> int {
    if PORTRAIT { NATIVE_W as int } else { NATIVE_H as int }
}

/// Whether `p` lies on the status screen.
pub open spec fn in_bounds(p: Point) -> bool {
    0 <= p.x < logical_width() && 0 <= p.y < logical_height()
}

/// Panel column of the screen point `(x, y)`.
pub open spec fn native_x(x: int, y: int) -> int {
    match (PORTRAIT, FLIP) {
        (false, false) => x,
        (false, true) => NATIVE_W - 1 - x,
        (true, false) => y,
        (true, true) => NATIVE_W - 1 - y,
    }
}

/// Panel line of the screen point `(x, y)`.
pub open spec fn native_y(x: int, y: int) -> int {
    match (PORTRAIT, FLIP) {
        (false, false) => y,
        (false, true) => NATIVE_H - 1 - y,
        (true, false) => NATIVE_H - 1 - x,
        (true, true) => x,
    }
}

/// The screen point shown at panel column `nx` of panel line `ny`.
pub open spec fn logical_point(nx: int, ny: int) -> (int, int) {
    match (PORTRAIT, FLIP) {
        (false, false) => (nx, ny),
        (false, true) => (NATIVE_W - 1 - nx, NATIVE_H - 1 - ny),
        (true, false) => (NATIVE_H - 1 - ny, nx),
        (true, true) => (ny, NATIVE_W - 1 - nx),
    }
}

/// Whether `(nx, ny)` is a pixel of the panel.
pub open spec fn native_in_range(nx: int, ny: int) -> bool {
    0 <= nx < NATIVE_W && 0 <= ny < NATIVE_H
}

/// Index in the burst of the address byte of panel line `ny` (`1 + ny * STRIDE`).
pub open spec fn line_start(ny: int) -> int {
    1 + 22 * ny
}

/// Index in the burst of the byte that holds panel pixel `(nx, ny)`.
pub open spec fn pixel_byte(nx: int, ny: int) -> int {
    line_start(ny) + 1 + nx / 8
}

/// The bit of panel pixel column `nx` within its byte.
pub open spec fn pixel_mask(nx: int) -> u8 {
    0x80u8 >> ((nx % 8) as u8)
}

/// Whether panel pixel `(nx, ny)` is black in `frame`.
pub open spec fn is_black(frame: Seq<u8>, nx: int, ny: int) -> bool {
    frame[pixel_byte(nx, ny)] & pixel_mask(nx) == 0
}

/// Whether painting with `color` makes a pixel black.
pub open spec fn paints_black(color: BinaryColor) -> bool {
    (color == BinaryColor::On) != INVERT
}

/// `b` with its bits in reverse order (what `u8::reverse_bits` returns).
pub open spec fn reversed_byte(b: u8) -> u8 {
    ((b & 0x01u8) << 7u8) | ((b & 0x02u8) << 5u8) | ((b & 0x04u8) << 3u8) | ((b & 0x08u8) << 1u8) | (
    (b & 0x10u8) >> 1u8) | ((b & 0x20u8) >> 3u8) | ((b & 0x40u8) >> 5u8) | ((b & 0x80u8) >> 7u8)
}

/// The command byte for a VCOM polarity.
pub open spec fn command_byte(vcom: bool) -> u8 {
    if vcom { 0xC0u8 } else { 0x80u8 }
}

/// The framing of a burst: its length, the address and trailer of every line and the
/// final byte.
pub open spec fn frame_wf(frame: Seq<u8>) -> bool {
    &&& frame.len() == FRAME_LEN
    &&& forall|ny: int|
        0 <= ny < NATIVE_H ==> #[trigger] frame[line_start(ny)] == reversed_byte((ny + 1) as u8)
            && frame[line_start(ny) + STRIDE - 1] == 0
    &&& frame[FRAME_LEN - 1] == 0
}

/// Every pixel byte of `frame` holds `fill`.
pub open spec fn all_pixel_bytes(frame: Seq<u8>, fill: u8) -> bool {
    forall|ny: int, k: int|
        0 <= ny < NATIVE_H && 0 <= k < LINE_BYTES ==> #[trigger] frame[line_start(ny) + 1 + k]
            == fill
}

/// `frame` with panel pixel `(nx, ny)` painted black or white.
pub open spec fn set_pixel(frame: Seq<u8>, nx: int, ny: int, black: bool) -> Seq<u8> {
    let i = pixel_byte(nx, ny);
    frame.update(
        i,
        if black {
            frame[i] & !pixel_mask(nx)
        } else {
            frame[i] | pixel_mask(nx)
        },
    )
}

/// `frame` after drawing one pixel; points off the screen are skipped.
pub open spec fn draw_pixel(frame: Seq<u8>, p: Pixel) -> Seq<u8> {
    if in_bounds(p.0) {
        set_pixel(
            frame,
            native_x(p.0.x as int, p.0.y as int),
            native_y(p.0.x as int, p.0.y as int),
            paints_black(p.1),
        )
    } else {
        frame
    }
}

/// `frame` after drawing `pixels` in order.
pub open spec fn draw_pixels(frame: Seq<u8>, pixels: Seq<Pixel>) -> Seq<u8>
    decreases pixels.len(),
{
    if pixels.len() == 0 {
        frame
    } else {
        draw_pixel(draw_pixels(frame, pixels.drop_last()), pixels.last())
    }
}

/// The byte a whole line of pixels is filled with by a clear to `color`.
pub open spec fn clear_fill(color: BinaryColor) -> u8 {
    if paints_black(color) { 0x00u8 } else { 0xFFu8 }
}

/// Calls `u8::reverse_bits`, which reverses the order of the bits of `b`; the
/// contract claims the bit-by-bit reversal.
#[verifier::external_body]
fn reverse_bits(b: u8) -> (r: u8)
    ensures
        r == reversed_byte(b),
{
    b.reverse_bits()
}

/// The sizes of the burst, worked out.
proof fn lemma_layout()
    ensures
        LINE_BYTES == 20,
        STRIDE == 22,
        FRAME_LEN == 1498,
{
    assert(FRAME_LEN == 1498) by (nonlinear_arith)
        requires
            FRAME_LEN == 1 + NATIVE_H * STRIDE + 1,
            NATIVE_H == 68,
            STRIDE == 22,
    ;
}

/// Index in the burst of the address byte of panel line `line`.
fn line_base(line: usize) -> (b: usize)
    requires
        line < NATIVE_H,
    ensures
        b == line_start(line as int),
        b + STRIDE < FRAME_LEN,
{
    proof {
        lemma_layout();
        assert(line * STRIDE == 22 * line) by (nonlinear_arith)
            requires
                STRIDE == 22,
        ;
    }
    1 + line * STRIDE
}

proof fn lemma_mask_bits(b: u8, i: u8, j: u8)
    by (bit_vector)
    requires
        i < 8,
        j < 8,
    ensures
        (b & !(0x80u8 >> i)) & (0x80u8 >> i) == 0,
        (b | (0x80u8 >> i)) & (0x80u8 >> i) != 0,
        i != j ==> (((b & !(0x80u8 >> i)) & (0x80u8 >> j)) == 0) == ((b & (0x80u8 >> j)) == 0),
        i != j ==> (((b | (0x80u8 >> i)) & (0x80u8 >> j)) == 0) == ((b & (0x80u8 >> j)) == 0),
        (0xFFu8 & (0x80u8 >> i)) != 0,
        (0x00u8 & (0x80u8 >> i)) == 0,
{
}

/// A pixel byte of the panel is never a framing byte.
proof fn lemma_pixel_byte_placement(nx: int, ny: int)
    requires
        native_in_range(nx, ny),
    ensures
        pixel_byte(nx, ny) == line_start(ny) + 1 + nx / 8,
        0 <= nx / 8 < LINE_BYTES,
        1 < pixel_byte(nx, ny) < FRAME_LEN - 1,
        forall|l: int|
            0 <= l < NATIVE_H ==> pixel_byte(nx, ny) != #[trigger] line_start(l) && pixel_byte(
                nx,
                ny,
            ) != line_start(l) + STRIDE - 1,
{
    lemma_layout();
}

/// Painting a panel pixel keeps the framing of the burst.
pub proof fn lemma_set_pixel_keeps_framing(frame: Seq<u8>, nx: int, ny: int, black: bool)
    requires
        frame_wf(frame),
        native_in_range(nx, ny),
    ensures
        frame_wf(set_pixel(frame, nx, ny, black)),
        set_pixel(frame, nx, ny, black)[0] == frame[0],
{
    lemma_pixel_byte_placement(nx, ny);
    let f2 = set_pixel(frame, nx, ny, black);
    assert forall|l: int| 0 <= l < NATIVE_H implies #[trigger] f2[line_start(l)] == reversed_byte(
        (l + 1) as u8,
    ) && f2[line_start(l) + STRIDE - 1] == 0 by {
        assert(frame[line_start(l)] == reversed_byte((l + 1) as u8));
    }
}

/// A painted panel pixel reads back with the colour it was painted, and every other
/// panel pixel keeps its colour.
pub proof fn lemma_set_pixel_reads_back(
    frame: Seq<u8>,
    nx: int,
    ny: int,
    black: bool,
    mx: int,
    my: int,
)
    requires
        frame.len() == FRAME_LEN,
        native_in_range(nx, ny),
        native_in_range(mx, my),
    ensures
        is_black(set_pixel(frame, nx, ny, black), nx, ny) == black,
        (mx, my) != (nx, ny) ==> is_black(set_pixel(frame, nx, ny, black), mx, my) == is_black(
            frame,
            mx,
            my,
        ),
{
    lemma_layout();
    lemma_pixel_byte_placement(nx, ny);
    lemma_pixel_byte_placement(mx, my);
    let i = pixel_byte(nx, ny);
    let b = frame[i];
    lemma_mask_bits(b, (nx % 8) as u8, (mx % 8) as u8);
    if (mx, my) != (nx, ny) && pixel_byte(mx, my) == i {
        assert(my == ny);
        assert(mx / 8 == nx / 8);
        assert(mx % 8 != nx % 8);
    }
}

/// The screen fills the panel one to one: every screen point lands on a panel pixel,
/// distinct points on distinct pixels, and every panel pixel shows one screen point.
pub proof fn lemma_screen_covers_panel(p: Point, q: Point, nx: int, ny: int)
    ensures
        in_bounds(p) ==> native_in_range(native_x(p.x as int, p.y as int), native_y(p.x as int, p.y as int)),
        in_bounds(p) && in_bounds(q) && native_x(p.x as int, p.y as int) == native_x(q.x as int, q.y as int)
            && native_y(p.x as int, p.y as int) == native_y(q.x as int, q.y as int) ==> p == q,
        native_in_range(nx, ny) ==> {
            let (x, y) = logical_point(nx, ny);
            &&& 0 <= x < logical_width()
            &&& 0 <= y < logical_height()
            &&& native_x(x, y) == nx
            &&& native_y(x, y) == ny
        },
{
}

/// Whether screen point `q` is black in `frame`.
pub open spec fn screen_black(frame: Seq<u8>, q: Point) -> bool {
    is_black(frame, native_x(q.x as int, q.y as int), native_y(q.x as int, q.y as int))
}

/// The colour (black or not) of screen point `q` after `pixels` are drawn over a
/// screen where it was `before`: the last pixel drawn at `q` decides.
pub open spec fn last_paint(pixels: Seq<Pixel>, q: Point, before: bool) -> bool
    decreases pixels.len(),
{
    if pixels.len() == 0 {
        before
    } else if pixels.last().0 == q {
        paints_black(pixels.last().1)
    } else {
        last_paint(pixels.drop_last(), q, before)
    }
}

proof fn lemma_mask_is_msb_first(k: u8)
    by (bit_vector)
    requires
        k < 8,
    ensures
        0x80u8 >> k == 1u8 << ((7 - k) as u8),
{
}

/// Drawing one pixel at a point of the 68 x 160 portrait screen changes exactly one
/// byte of the burst: the byte of panel line `67 - x` holding panel column `y`, at
/// index `2 + 22 * (67 - x) + y / 8`, where the bit of value `2^(7 - y % 8)`
/// (most significant bit first) is cleared for `On` (black) and set for `Off`.
/// Every other point is off the screen and leaves the burst unchanged.
pub proof fn lemma_draw_one_pixel(frame: Seq<u8>, p: Pixel)
    requires
        frame.len() == 1498,
    ensures
        ({
            let x = p.0.x as int;
            let y = p.0.y as int;
            let i = 2 + 22 * (67 - x) + y / 8;
            let bit = 1u8 << ((7 - y % 8) as u8);
            let drawn = draw_pixels(frame, seq![p]);
            if 0 <= x < 68 && 0 <= y < 160 {
                &&& 0 <= i < 1498
                &&& drawn.len() == 1498
                &&& drawn[i] == if p.1 == BinaryColor::On {
                    frame[i] & !bit
                } else {
                    frame[i] | bit
                }
                &&& forall|j: int| 0 <= j < 1498 && j != i ==> drawn[j] == frame[j]
                &&& (drawn[i] & bit == 0) == (p.1 == BinaryColor::On)
            } else {
                drawn == frame
            }
        }),
{
    let x = p.0.x as int;
    let y = p.0.y as int;
    assert(seq![p].drop_last().len() == 0);
    assert(draw_pixels(frame, seq![p].drop_last()) == frame);
    if 0 <= x < 68 && 0 <= y < 160 {
        assert(in_bounds(p.0));
        assert(native_x(x, y) == y);
        assert(native_y(x, y) == 67 - x);
        lemma_mask_is_msb_first((y % 8) as u8);
        assert(pixel_mask(y) == 1u8 << ((7 - y % 8) as u8));
        lemma_mask_bits(frame[2 + 22 * (67 - x) + y / 8], (y % 8) as u8, 0);
    }
}

/// The status screen is exactly the points with `0 <= x < 68` and `0 <= y < 160`;
/// screen point `(x, y)` is panel column `y` of panel line `67 - x`, and panel pixel
/// `(nx, ny)` is black exactly when the bit of value `2^(7 - nx % 8)` of byte
/// `2 + 22 * ny + nx / 8` is clear.
pub proof fn lemma_portrait_layout(p: Point, frame: Seq<u8>, nx: int, ny: int)
    ensures
        in_bounds(p) <==> (0 <= p.x < 68 && 0 <= p.y < 160),
        native_x(p.x as int, p.y as int) == p.y,
        native_y(p.x as int, p.y as int) == 67 - p.x,
        0 <= nx < 160 ==> (is_black(frame, nx, ny) <==> frame[2 + 22 * ny + nx / 8] & (1u8 << ((7 - nx % 8) as u8)) == 0),
{
    if 0 <= nx < 160 {
        lemma_mask_is_msb_first((nx % 8) as u8);
    }
}

/// When every pixel byte holds the same value, every panel pixel has the colour it
/// spells: all white for `0xFF`, all black for `0x00`.
pub proof fn lemma_filled_pixels(frame: Seq<u8>, fill: u8, nx: int, ny: int)
    requires
        frame.len() == FRAME_LEN,
        all_pixel_bytes(frame, fill),
        native_in_range(nx, ny),
        fill == 0x00u8 || fill == 0xFFu8,
    ensures
        is_black(frame, nx, ny) == (fill == 0x00u8),
{
    lemma_layout();
    lemma_pixel_byte_placement(nx, ny);
    assert(frame[line_start(ny) + 1 + nx / 8] == fill);
    lemma_mask_bits(fill, (nx % 8) as u8, 0);
}

/// After a clear, every point of the screen shows the clear colour.
pub proof fn lemma_clear_paints_screen(frame: Seq<u8>, color: BinaryColor, q: Point)
    requires
        frame.len() == FRAME_LEN,
        all_pixel_bytes(frame, clear_fill(color)),
        in_bounds(q),
    ensures
        screen_black(frame, q) == paints_black(color),
{
    lemma_screen_covers_panel(q, q, 0, 0);
    lemma_filled_pixels(frame, clear_fill(color), native_x(q.x as int, q.y as int), native_y(q.x as int, q.y as int));
}

/// Drawing pixels keeps the framing, and afterwards every point of the screen shows
/// the colour of the last pixel drawn at it, or its former colour if none was.
pub proof fn lemma_draw_pixels_last_wins(frame: Seq<u8>, pixels: Seq<Pixel>, q: Point)
    requires
        frame_wf(frame),
        in_bounds(q),
    ensures
        frame_wf(draw_pixels(frame, pixels)),
        draw_pixels(frame, pixels)[0] == frame[0],
        screen_black(draw_pixels(frame, pixels), q) == last_paint(pixels, q, screen_black(frame, q)),
    decreases pixels.len(),
{
    if pixels.len() > 0 {
        let prefix = pixels.drop_last();
        let p = pixels.last();
        lemma_draw_pixels_last_wins(frame, prefix, q);
        let mid = draw_pixels(frame, prefix);
        if in_bounds(p.0) {
            let nx = native_x(p.0.x as int, p.0.y as int);
            let ny = native_y(p.0.x as int, p.0.y as int);
            lemma_screen_covers_panel(p.0, q, 0, 0);
            lemma_set_pixel_keeps_framing(mid, nx, ny, paints_black(p.1));
            lemma_set_pixel_reads_back(
                mid,
                nx,
                ny,
                paints_black(p.1),
                native_x(q.x as int, q.y as int),
                native_y(q.x as int, q.y as int),
            );
        }
    }
}

impl NiceView {
    /// The burst that will be sent to the panel.
    pub closed spec fn bytes(&self) -> Seq<u8> {
        self.frame@
    }

    /// The VCOM polarity of the next burst.
    pub closed spec fn vcom(&self) -> bool {
        self.vcom
    }

    /// The tick at which VCOM was last toggled.
    pub closed spec fn last_vcom(&self) -> u64 {
        self.last_vcom
    }

    /// The burst is well framed.
    pub open spec fn wf(&self) -> bool {
        frame_wf(self.bytes())
    }

    /// A blank (all white) screen: write command, every line addressed and
    /// terminated, VCOM low, never toggled.
    pub fn new() -> (v: NiceView)
        ensures
            v.wf(),
            v.bytes()[0] == CMD_WRITE,
            all_pixel_bytes(v.bytes(), 0xFFu8),
            !v.vcom(),
            v.last_vcom() == 0,
    {
        proof {
            lemma_layout();
        }
        let mut frame: Vec<u8> = vec![0xFFu8; FRAME_LEN];
        frame.set(0, CMD_WRITE);
        let mut line: usize = 0;
        while line < NATIVE_H
            invariant
                line <= NATIVE_H,
                frame@.len() == FRAME_LEN,
                frame@[0] == CMD_WRITE,
                frame@[FRAME_LEN - 1] == 0xFFu8,
                forall|l: int|
                    0 <= l < line ==> #[trigger] frame@[line_start(l)] == reversed_byte(
                        (l + 1) as u8,
                    ) && frame@[line_start(l) + STRIDE - 1] == 0,
                all_pixel_bytes(frame@, 0xFFu8),
            decreases NATIVE_H - line,
        {
            let base = line_base(line);
            let header = reverse_bits((line + 1) as u8);
            let ghost before = frame@;
            frame.set(base, header);
            frame.set(base + STRIDE - 1, 0);
            proof {
                assert(frame@ == before.update(base as int, header).update(base + STRIDE - 1, 0u8));
                assert forall|l: int| 0 <= l < line + 1 implies #[trigger] frame@[line_start(l)]
                    == reversed_byte((l + 1) as u8) && frame@[line_start(l) + STRIDE - 1] == 0 by {
                    if l < line {
                        assert(before[line_start(l)] == reversed_byte((l + 1) as u8));
                        assert(line_start(l) + STRIDE - 1 < base);
                    } else {
                        assert(line_start(l) == base);
                    }
                }
                assert forall|ny: int, k: int|
                    0 <= ny < NATIVE_H && 0 <= k < LINE_BYTES implies #[trigger] frame@[line_start(
                    ny) + 1 + k] == 0xFFu8 by {
                    assert(before[line_start(ny) + 1 + k] == 0xFFu8);
                    assert(line_start(ny) + 1 + k != base);
                    assert(line_start(ny) + 1 + k != base + STRIDE - 1);
                }
            }
            line = line + 1;
        }
        let ghost before = frame@;
        frame.set(FRAME_LEN - 1, 0);
        proof {
            assert forall|l: int| 0 <= l < NATIVE_H implies #[trigger] frame@[line_start(l)]
                == reversed_byte((l + 1) as u8) && frame@[line_start(l) + STRIDE - 1] == 0 by {
                assert(before[line_start(l)] == reversed_byte((l + 1) as u8));
            }
            assert forall|ny: int, k: int|
                0 <= ny < NATIVE_H && 0 <= k < LINE_BYTES implies #[trigger] before[line_start(ny) + 1
                + k] == 0xFFu8 by {
            }
            assert forall|ny: int, k: int|
                0 <= ny < NATIVE_H && 0 <= k < LINE_BYTES implies #[trigger] frame@[line_start(ny) + 1
                + k] == 0xFFu8 by {
                assert(line_start(ny) + 1 + k < FRAME_LEN - 1);
            }
        }
        NiceView { frame, vcom: false, last_vcom: 0 }
    }

    /// The burst to send to the panel.
    pub fn frame(&self) -> (f: &Vec<u8>)
        ensures
            f@ == self.bytes(),
    {
        &self.frame
    }

    /// The tick at which VCOM was last toggled.
    pub fn last_vcom_ticks(&self) -> (t: u64)
        ensures
            t == self.last_vcom(),
    {
        self.last_vcom
    }

    /// Size of the status screen: `(width, height)`.
    pub fn size(&self) -> (s: (u32, u32))
        ensures
            s.0 == logical_width(),
            s.1 == logical_height(),
    {
        if PORTRAIT {
            (NATIVE_H as u32, NATIVE_W as u32)
        } else {
            (NATIVE_W as u32, NATIVE_H as u32)
        }
    }

    /// Paints one pixel; points off the screen are skipped.
    fn draw_one(&mut self, p: Pixel)
        requires
            old(self).wf(),
        ensures
            final(self).wf(),
            final(self).bytes() == draw_pixel(old(self).bytes(), p),
            final(self).bytes()[0] == old(self).bytes()[0],
            final(self).vcom() == old(self).vcom(),
            final(self).last_vcom() == old(self).last_vcom(),
    {
        proof {
            lemma_layout();
        }
        let (w, h) = self.size();
        let pt = p.0;
        if pt.x < 0 || pt.y < 0 || pt.x >= w as i32 || pt.y >= h as i32 {
            return ;
        }
        let x = pt.x as usize;
        let y = pt.y as usize;
        let (nx, ny) = match (PORTRAIT, FLIP) {
            (false, false) => (x, y),
            (false, true) => (NATIVE_W - 1 - x, NATIVE_H - 1 - y),
            (true, false) => (y, NATIVE_H - 1 - x),
            (true, true) => (NATIVE_W - 1 - y, x),
        };
        let black = (p.1 == BinaryColor::On) != INVERT;
        let idx = line_base(ny) + 1 + nx / 8;
        let shift: u8 = (nx % 8) as u8;
        let mask = 0x80u8 >> shift;
        proof {
            lemma_pixel_byte_placement(nx as int, ny as int);
            lemma_set_pixel_keeps_framing(self.frame@, nx as int, ny as int, black);
        }
        let byte = self.frame[idx];
        if black {
            self.frame.set(idx, byte & !mask);
        } else {
            self.frame.set(idx, byte | mask);
        }
    }

    /// Paints `pixels` in order; points off the screen are skipped.
    pub fn draw_iter(&mut self, pixels: &[Pixel])
        requires
            old(self).wf(),
        ensures
            final(self).wf(),
            final(self).bytes() == draw_pixels(old(self).bytes(), pixels@),
            final(self).bytes()[0] == old(self).bytes()[0],
            final(self).vcom() == old(self).vcom(),
            final(self).last_vcom() == old(self).last_vcom(),
    {
        let n = pixels.len();
        let mut i: usize = 0;
        while i < n
            invariant
                n == pixels@.len(),
                i <= n,
                self.wf(),
                self.bytes() == draw_pixels(old(self).bytes(), pixels@.take(i as int)),
                self.bytes()[0] == old(self).bytes()[0],
                self.vcom() == old(self).vcom(),
                self.last_vcom() == old(self).last_vcom(),
            decreases n - i,
        {
            self.draw_one(pixels[i]);
            proof {
                assert(pixels@.take(i + 1).drop_last() == pixels@.take(i as int));
            }
            i = i + 1;
        }
        proof {
            assert(pixels@.take(n as int) == pixels@);
        }
    }

    /// Fills every pixel of the screen with `color`; the framing is kept.
    pub fn clear(&mut self, color: BinaryColor)
        requires
            old(self).wf(),
        ensures
            final(self).wf(),
            final(self).bytes()[0] == old(self).bytes()[0],
            all_pixel_bytes(final(self).bytes(), clear_fill(color)),
            final(self).vcom() == old(self).vcom(),
            final(self).last_vcom() == old(self).last_vcom(),
    {
        proof {
            lemma_layout();
        }
        let fill: u8 = if (color == BinaryColor::On) != INVERT {
            0x00
        } else {
            0xFF
        };
        let ghost start = self.frame@;
        let mut line: usize = 0;
        while line < NATIVE_H
            invariant
                line <= NATIVE_H,
                frame_wf(start),
                self.frame@.len() == FRAME_LEN,
                self.frame@[0] == start[0],
                self.vcom == old(self).vcom,
                self.last_vcom == old(self).last_vcom,
                start == old(self).frame@,
                fill == clear_fill(color),
                forall|i: int|
                    0 <= i < FRAME_LEN && !(exists|ny: int, k: int|
                        0 <= ny < NATIVE_H && 0 <= k < LINE_BYTES && i == #[trigger] (line_start(ny)
                            + 1 + k)) ==> #[trigger] self.frame@[i] == start[i],
                forall|ny: int, k: int|
                    0 <= ny < line && 0 <= k < LINE_BYTES ==> #[trigger] self.frame@[line_start(ny) + 1
                        + k] == fill,
            decreases NATIVE_H - line,
        {
            let b = line_base(line) + 1;
            let mut k: usize = 0;
            while k < LINE_BYTES
                invariant
                    line < NATIVE_H,
                    b == line_start(line as int) + 1,
                    k <= LINE_BYTES,
                    self.frame@.len() == FRAME_LEN,
                    self.frame@[0] == start[0],
                    self.vcom == old(self).vcom,
                    self.last_vcom == old(self).last_vcom,
                    forall|i: int|
                        0 <= i < FRAME_LEN && !(exists|ny: int, kk: int|
                            0 <= ny < NATIVE_H && 0 <= kk < LINE_BYTES && i == #[trigger] (
                            line_start(ny) + 1 + kk)) ==> #[trigger] self.frame@[i] == start[i],
                    forall|ny: int, kk: int|
                        0 <= ny < line && 0 <= kk < LINE_BYTES ==> #[trigger] self.frame@[line_start(
                            ny) + 1 + kk] == fill,
                    forall|kk: int| 0 <= kk < k ==> #[trigger] self.frame@[b + kk] == fill,
                decreases LINE_BYTES - k,
            {
                proof {
                    assert(line_start(line as int) + 1 + k == b + k);
                }
                self.frame.set(b + k, fill);
                proof {
                    assert forall|ny: int, kk: int|
                        0 <= ny < line && 0 <= kk < LINE_BYTES implies #[trigger] self.frame@[line_start(
                        ny) + 1 + kk] == fill by {
                        assert(line_start(ny) + 1 + kk != b + k);
                    }
                }
                k = k + 1;
            }
            proof {
                assert forall|ny: int, kk: int|
                    0 <= ny < line + 1 && 0 <= kk < LINE_BYTES implies #[trigger] self.frame@[line_start(
                    ny) + 1 + kk] == fill by {
                    if ny == line {
                        assert(self.frame@[b + kk] == fill);
                    }
                }
            }
            line = line + 1;
        }
        proof {
            assert forall|l: int| 0 <= l < NATIVE_H implies #[trigger] self.frame@[line_start(l)]
                == reversed_byte((l + 1) as u8) && self.frame@[line_start(l) + STRIDE - 1] == 0 by {
                assert(start[line_start(l)] == reversed_byte((l + 1) as u8));
                assert forall|ny: int, k: int|
                    0 <= ny < NATIVE_H && 0 <= k < LINE_BYTES implies line_start(l) != #[trigger] (
                    line_start(ny) + 1 + k) && line_start(l) + STRIDE - 1 != line_start(ny) + 1 + k by {
                }
            }
            assert forall|ny: int, k: int|
                0 <= ny < NATIVE_H && 0 <= k < LINE_BYTES implies FRAME_LEN - 1 != #[trigger] (
                line_start(ny) + 1 + k) by {
            }
        }
    }

    /// Gets the burst ready to be sent at tick `now`: VCOM is toggled when at least
    /// [`VCOM_PERIOD_MS`] have passed since it was last toggled, and the command byte
    /// carries the polarity.
    pub fn prepare_write(&mut self, now: u64)
        requires
            old(self).wf(),
            old(self).last_vcom() <= now,
        ensures
            final(self).wf(),
            ({
                let toggled = now - old(self).last_vcom() >= millis_to_ticks(VCOM_PERIOD_MS as int);
                &&& final(self).vcom() == (old(self).vcom() != toggled)
                &&& final(self).last_vcom() == if toggled {
                    now
                } else {
                    old(self).last_vcom()
                }
            }),
            final(self).bytes() == old(self).bytes().update(0, command_byte(final(self).vcom())),
    {
        proof {
            lemma_layout();
        }
        let elapsed = ticks_since(now, self.last_vcom);
        if elapsed >= ticks_from_millis(VCOM_PERIOD_MS) {
            self.vcom = !self.vcom;
            self.last_vcom = now;
        }
        let cmd = CMD_WRITE | if self.vcom {
            CMD_VCOM
        } else {
            0
        };
        proof {
            assert(CMD_WRITE | CMD_VCOM == 0xC0u8) by (bit_vector);
            assert(CMD_WRITE | 0u8 == 0x80u8) by (bit_vector);
        }
        self.frame.set(0, cmd);
        proof {
            assert forall|l: int| 0 <= l < NATIVE_H implies #[trigger] self.frame@[line_start(l)]
                == reversed_byte((l + 1) as u8) && self.frame@[line_start(l) + STRIDE - 1] == 0 by {
                assert(old(self).frame@[line_start(l)] == reversed_byte((l + 1) as u8));
            }
        }
    }
}

/// The display of the keyboard half: a blank screen ready to be drawn on.
pub fn nice_view() -> (v: NiceView)
    ensures
        v.wf(),
        v.bytes()[0] == CMD_WRITE,
        all_pixel_bytes(v.bytes(), 0xFFu8),
        !v.vcom(),
        v.last_vcom() == 0,
{
    NiceView::new()
}

} // verus!
