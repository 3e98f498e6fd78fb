//! What the driver's operations are for, stated in terms of bytes and coordinates.
use vstd::prelude::*;

use crate::color::{le_bytes, Gray8, Rgb565, Rgb666, Rgb888, SH8601ColorMode};
use crate::commands::{
    CASET, COLMOD, DISPOFF, DISPON, MADCTL, PASET, PTLAR, SLPIN, SLPOUT, SWRESET, TEON, TESCAN,
    WRDISBV,
};
use crate::driver::{region_bytes, row_fits, rows_fit, window_error, SLEEP_SETTLE_MS};
use crate::framebuffer::{frame_with_pixel, lemma_pixel_fits, Framebuffer};
use crate::protocol::{
    brightness_bytes, init_script, init_transfers, script_transfers, window_plan, InitEntry,
    Transfer,
};

verus! {

proof fn lemma_row_bounds(x0: int, y0: int, r: int, width: int, bpp: int)
    requires
        0 <= x0,
        0 <= y0,
        0 <= r,
        0 <= width,
        0 <= bpp,
    ensures
        (y0 + r) * (width * bpp) + x0 * bpp == ((y0 + r) * width + x0) * bpp,
        0 <= ((y0 + r) * width + x0) * bpp,
{
    assert((y0 + r) * (width * bpp) + x0 * bpp == ((y0 + r) * width + x0) * bpp)
        by (nonlinear_arith);
    assert(0 <= ((y0 + r) * width + x0) * bpp) by (nonlinear_arith)
        requires
            0 <= x0,
            0 <= y0,
            0 <= r,
            0 <= width,
            0 <= bpp,
    ;
}

proof fn lemma_region_rows(
    frame: Seq<u8>,
    x0: int,
    y0: int,
    cols: int,
    rows: int,
    width: int,
    bpp: int,
)
    requires
        0 <= x0,
        0 <= y0,
        cols >= 1,
        0 <= rows,
        width >= 0,
        bpp >= 1,
        rows_fit(x0, y0, cols, rows, width, bpp, frame.len() as int),
    ensures
        region_bytes(frame, x0, y0, cols, rows, width, bpp).len() == rows * (cols * bpp),
        forall|r: int, j: int|
            0 <= r < rows && 0 <= j < cols * bpp ==> #[trigger] region_bytes(
                frame,
                x0,
                y0,
                cols,
                rows,
                width,
                bpp,
            )[r * (cols * bpp) + j] == frame[((y0 + r) * width + x0) * bpp + j],
    decreases rows,
{
    if rows > 0 {
        let k = rows - 1;
        let c = cols * bpp;
        assert(c >= 1) by (nonlinear_arith)
            requires
                cols >= 1,
                bpp >= 1,
                c == cols * bpp,
        ;
        assert forall|r: int| 0 <= r < k implies #[trigger] row_fits(
            x0,
            y0,
            cols,
            r,
            width,
            bpp,
            frame.len() as int,
        ) by {
            assert(row_fits(x0, y0, cols, r, width, bpp, frame.len() as int));
        }
        lemma_region_rows(frame, x0, y0, cols, k, width, bpp);
        assert(row_fits(x0, y0, cols, k, width, bpp, frame.len() as int));
        lemma_row_bounds(x0, y0, k, width, bpp);
        let s = ((y0 + k) * width + x0) * bpp;
        let prev = region_bytes(frame, x0, y0, cols, k, width, bpp);
        let region = region_bytes(frame, x0, y0, cols, rows, width, bpp);
        assert(region == prev + frame.subrange(s, s + c));
        assert(k * c + c == rows * c) by (nonlinear_arith)
            requires
                k == rows - 1,
        ;
        assert forall|r: int, j: int| 0 <= r < rows && 0 <= j < c implies #[trigger] region[r * c
            + j] == frame[((y0 + r) * width + x0) * bpp + j] by {
            if r < k {
                assert(r * c + j < k * c) by (nonlinear_arith)
                    requires
                        0 <= r < k,
                        0 <= j < c,
                ;
                assert(region[r * c + j] == prev[r * c + j]);
            } else {
                assert(r * c + j - k * c == j) by (nonlinear_arith)
                    requires
                        r == k,
                ;
                assert(0 <= k * c) by (nonlinear_arith)
                    requires
                        0 <= k,
                        c >= 1,
                ;
                assert(region[r * c + j] == frame[s + j]);
            }
        }
    } else {
        assert(rows * (cols * bpp) == 0);
    }
}

/// A partial flush sends exactly the window's pixels as the framebuffer holds them: byte
/// `j` of window row `r` is byte `j` counted from the framebuffer offset of pixel
/// `(x0, y0 + r)`, that is `((y0 + r) * width + x0) * bpp`, the offset pixel writes use.
pub proof fn law_partial_flush_sends_window_pixels(
    frame: Seq<u8>,
    x0: int,
    y0: int,
    cols: int,
    rows: int,
    width: int,
    bpp: int,
)
    requires
        0 <= x0,
        0 <= y0,
        cols >= 1,
        0 <= rows,
        width >= 0,
        bpp >= 1,
        rows_fit(x0, y0, cols, rows, width, bpp, frame.len() as int),
    ensures
        region_bytes(frame, x0, y0, cols, rows, width, bpp).len() == rows * cols * bpp,
        forall|r: int, j: int|
            0 <= r < rows && 0 <= j < cols * bpp ==> #[trigger] region_bytes(
                frame,
                x0,
                y0,
                cols,
                rows,
                width,
                bpp,
            )[r * (cols * bpp) + j] == frame[((y0 + r) * width + x0) * bpp + j],
{
    lemma_region_rows(frame, x0, y0, cols, rows, width, bpp);
    assert(rows * (cols * bpp) == rows * cols * bpp) by (nonlinear_arith);
}

/// A window is accepted exactly when both ends are nonzero, its start lies on the
/// `width` x `height` display (x against the width, y against the height), and each end is
/// at or after its start (ends are inclusive, so a one-pixel-wide window is fine); the
/// error otherwise is the first that applies of: a zero end, a start off the display, an
/// end before its start.
pub proof fn law_window_accepted_exactly(
    x_start: u16,
    y_start: u16,
    x_end: u16,
    y_end: u16,
    width: u16,
    height: u16,
)
    ensures
        window_error(x_start, y_start, x_end, y_end, width, height) is None <==> (x_end > 0
            && y_end > 0 && x_start < width && y_start < height && x_start <= x_end && y_start
            <= y_end),
        x_end == 0 || y_end == 0 ==> window_error(x_start, y_start, x_end, y_end, width, height)
            == Some("Window width/height cannot be zero"),
        x_end > 0 && y_end > 0 && (x_start >= width || y_start >= height) ==> window_error(
            x_start,
            y_start,
            x_end,
            y_end,
            width,
            height,
        ) == Some("Window start coordinates out of bounds"),
        x_end > 0 && y_end > 0 && x_start < width && y_start < height && (x_end < x_start || y_end
            < y_start) ==> window_error(x_start, y_start, x_end, y_end, width, height) == Some(
            "Invalid window dimensions (end < start)",
        ),
{
}

/// The initialization sequence sends, in order: SWRESET (0x01), SLPOUT (0x11), COLMOD
/// (0x3A) with the pixel format parameter `colmod` itself, MADCTL (0x36) 0x00, TESCAN
/// (0x44) 0x01 0xC5, TEON (0x35) 0x00, DISPON (0x29), and PTLAR (0x30) 0x00 0x80 0x00
/// 0x02; its waits are 10, 120, 5, 120 and 10 ms, after SWRESET, SLPOUT, COLMOD, DISPON and
/// PTLAR.
pub proof fn law_initialization_sequence(colmod: u8)
    ensures
        init_transfers(colmod) == seq![
            Transfer::Command(0x01),
            Transfer::Command(0x11),
            Transfer::CommandWithData(0x3A, seq![colmod]),
            Transfer::CommandWithData(0x36, seq![0x00u8]),
            Transfer::CommandWithData(0x44, seq![0x01u8, 0xC5u8]),
            Transfer::CommandWithData(0x35, seq![0x00u8]),
            Transfer::Command(0x29),
            Transfer::CommandWithData(0x30, seq![0x00u8, 0x80u8, 0x00u8, 0x02u8]),
        ],
        init_script(colmod).len() == 13,
        init_script(colmod)[1] == InitEntry::Wait(10),
        init_script(colmod)[3] == InitEntry::Wait(120),
        init_script(colmod)[5] == InitEntry::Wait(5),
        init_script(colmod)[10] == InitEntry::Wait(120),
        init_script(colmod)[12] == InitEntry::Wait(10),
{
    let script = init_script(colmod);
    reveal_with_fuel(script_transfers, 14);
    assert(script.drop_last().drop_last().drop_last().drop_last().drop_last().drop_last().drop_last().drop_last().drop_last().drop_last().drop_last().drop_last().drop_last() =~= Seq::<InitEntry>::empty());
    assert(init_transfers(colmod) =~= seq![
        Transfer::Command(0x01),
        Transfer::Command(0x11),
        Transfer::CommandWithData(0x3A, seq![colmod]),
        Transfer::CommandWithData(0x36, seq![0x00u8]),
        Transfer::CommandWithData(0x44, seq![0x01u8, 0xC5u8]),
        Transfer::CommandWithData(0x35, seq![0x00u8]),
        Transfer::Command(0x29),
        Transfer::CommandWithData(0x30, seq![0x00u8, 0x80u8, 0x00u8, 0x02u8]),
    ]);
}

/// Each pixel format selects its own COLMOD parameter and pixel size: RGB565 0x55 with two
/// bytes, RGB666 0x66 and RGB888 0x77 with three bytes, Gray8 0x11 with one byte.
pub proof fn law_color_mode_parameters()
    ensures
        Rgb565::spec_command_parameter() == 0x55,
        Rgb565::spec_bytes_per_pixel() == 2,
        Rgb666::spec_command_parameter() == 0x66,
        Rgb666::spec_bytes_per_pixel() == 3,
        Rgb888::spec_command_parameter() == 0x77,
        Rgb888::spec_bytes_per_pixel() == 3,
        Gray8::spec_command_parameter() == 0x11,
        Gray8::spec_bytes_per_pixel() == 1,
{
}

/// An RGB565 pixel with 5-bit red, 6-bit green and 5-bit blue channels is the 16-bit value
/// red * 2048 + green * 32 + blue (higher channel bits are dropped), stored low byte first:
/// the low byte holds the three low green bits above blue, the high byte red above the
/// three high green bits.
pub proof fn law_rgb565_pixel_bytes(r: u8, g: u8, b: u8)
    ensures
        (Rgb565 { r, g, b }).spec_storage() == (r % 32) * 2048 + (g % 64) * 32 + b % 32,
        r < 32 && g < 64 && b < 32 ==> le_bytes(
            (Rgb565 { r, g, b }).spec_storage(),
            Rgb565::spec_bytes_per_pixel(),
        ) == seq![((g % 8) * 32 + b) as u8, (r * 8 + g / 8) as u8],
{
    if r < 32 && g < 64 && b < 32 {
        let v = (Rgb565 { r, g, b }).spec_storage();
        assert(v == r * 2048 + g * 32 + b);
        assert(v % 256 == (g % 8) * 32 + b && v / 256 == r * 8 + g / 8) by (nonlinear_arith)
            requires
                v == r * 2048 + g * 32 + b,
                r < 32,
                g < 64,
                b < 32,
        ;
        reveal_with_fuel(le_bytes, 3);
        assert(le_bytes(v, 2) =~= seq![((g % 8) * 32 + b) as u8, (r * 8 + g / 8) as u8]);
    }
}

/// An RGB666 pixel with 6-bit channels is red * 4096 + green * 64 + blue (higher bits
/// dropped) in three bytes, low byte first.
pub proof fn law_rgb666_pixel_bytes(r: u8, g: u8, b: u8)
    ensures
        (Rgb666 { r, g, b }).spec_storage() == (r % 64) * 4096 + (g % 64) * 64 + b % 64,
        r < 64 && g < 64 && b < 64 ==> le_bytes(
            (Rgb666 { r, g, b }).spec_storage(),
            Rgb666::spec_bytes_per_pixel(),
        ) == seq![((g % 4) * 64 + b) as u8, ((r % 16) * 16 + g / 4) as u8, (r / 16) as u8],
{
    if r < 64 && g < 64 && b < 64 {
        let v = (Rgb666 { r, g, b }).spec_storage();
        assert(v == r * 4096 + g * 64 + b);
        assert(v % 256 == (g % 4) * 64 + b && (v / 256) % 256 == (r % 16) * 16 + g / 4 && (v
            / 256) / 256 == r / 16) by (nonlinear_arith)
            requires
                v == r * 4096 + g * 64 + b,
                r < 64,
                g < 64,
                b < 64,
        ;
        reveal_with_fuel(le_bytes, 4);
        assert(le_bytes(v, 3) =~= seq![
            ((g % 4) * 64 + b) as u8,
            ((r % 16) * 16 + g / 4) as u8,
            (r / 16) as u8,
        ]);
    }
}

/// An RGB888 pixel is stored as its blue, green and red bytes, in that order.
pub proof fn law_rgb888_pixel_bytes(r: u8, g: u8, b: u8)
    ensures
        (Rgb888 { r, g, b }).spec_storage() == r * 65536 + g * 256 + b,
        le_bytes((Rgb888 { r, g, b }).spec_storage(), Rgb888::spec_bytes_per_pixel()) == seq![
            b,
            g,
            r,
        ],
{
    let v = (Rgb888 { r, g, b }).spec_storage();
    assert(v % 256 == b && (v / 256) % 256 == g && (v / 256) / 256 == r) by (nonlinear_arith)
        requires
            v == r * 65536 + g * 256 + b,
            r < 256,
            g < 256,
            b < 256,
    ;
    reveal_with_fuel(le_bytes, 4);
    assert(le_bytes(v, 3) =~= seq![b, g, r]);
}

/// A Gray8 pixel is its luma byte.
pub proof fn law_gray8_pixel_bytes(luma: u8)
    ensures
        le_bytes((Gray8 { luma }).spec_storage(), Gray8::spec_bytes_per_pixel()) == seq![luma],
{
    reveal_with_fuel(le_bytes, 2);
    assert(le_bytes(luma as nat, 1) =~= seq![luma]);
}

/// Window rows fit the framebuffer exactly when, for each row `r`, the row's last byte,
/// `((y0 + r) * width + x0 + cols) * bpp - 1`, lies within the `n` bytes.
pub proof fn law_rows_fit_exactly(x0: int, y0: int, cols: int, rows: int, width: int, bpp: int, n: int)
    requires
        0 <= x0,
        0 <= y0,
        cols >= 1,
        width >= 0,
        bpp >= 1,
    ensures
        rows_fit(x0, y0, cols, rows, width, bpp, n) <==> forall|r: int|
            0 <= r < rows ==> #[trigger] (((y0 + r) * width + x0 + cols) * bpp) <= n,
{
    assert forall|r: int| 0 <= r < rows implies (#[trigger] row_fits(
        x0,
        y0,
        cols,
        r,
        width,
        bpp,
        n,
    ) <==> ((y0 + r) * width + x0 + cols) * bpp <= n) by {
        lemma_row_bounds(x0, y0, r, width, bpp);
        assert(((y0 + r) * width + x0) * bpp + cols * bpp == ((y0 + r) * width + x0 + cols)
            * bpp) by (nonlinear_arith);
        assert(cols * bpp >= 1) by (nonlinear_arith)
            requires
                cols >= 1,
                bpp >= 1,
        ;
    }
    if rows_fit(x0, y0, cols, rows, width, bpp, n) {
        assert forall|r: int| 0 <= r < rows implies #[trigger] (((y0 + r) * width + x0 + cols)
            * bpp) <= n by {
            assert(row_fits(x0, y0, cols, r, width, bpp, n));
        }
    }
    if forall|r: int| 0 <= r < rows ==> #[trigger] (((y0 + r) * width + x0 + cols) * bpp) <= n {
        assert forall|r: int| 0 <= r < rows implies #[trigger] row_fits(
            x0,
            y0,
            cols,
            r,
            width,
            bpp,
            n,
        ) by {
            assert(((y0 + r) * width + x0 + cols) * bpp <= n);
        }
    }
}

/// Selecting a window sends CASET (0x2A) with the start and end columns, then PASET (0x2B)
/// with the start and end rows, each coordinate most significant byte first.
pub proof fn law_window_transfers(x_start: u16, y_start: u16, x_end: u16, y_end: u16)
    ensures
        window_plan(x_start, y_start, x_end, y_end) == seq![
            Transfer::CommandWithData(
                0x2A,
                seq![
                    (x_start / 256) as u8,
                    (x_start % 256) as u8,
                    (x_end / 256) as u8,
                    (x_end % 256) as u8,
                ],
            ),
            Transfer::CommandWithData(
                0x2B,
                seq![
                    (y_start / 256) as u8,
                    (y_start % 256) as u8,
                    (y_end / 256) as u8,
                    (y_end % 256) as u8,
                ],
            ),
        ],
{
    assert(window_plan(x_start, y_start, x_end, y_end)[0] == Transfer::CommandWithData(
        0x2A,
        seq![
            (x_start / 256) as u8,
            (x_start % 256) as u8,
            (x_end / 256) as u8,
            (x_end % 256) as u8,
        ],
    )) by {
        assert(crate::protocol::range_bytes(x_start, x_end) =~= seq![
            (x_start / 256) as u8,
            (x_start % 256) as u8,
            (x_end / 256) as u8,
            (x_end % 256) as u8,
        ]);
    }
    assert(window_plan(x_start, y_start, x_end, y_end)[1] == Transfer::CommandWithData(
        0x2B,
        seq![
            (y_start / 256) as u8,
            (y_start % 256) as u8,
            (y_end / 256) as u8,
            (y_end % 256) as u8,
        ],
    )) by {
        assert(crate::protocol::range_bytes(y_start, y_end) =~= seq![
            (y_start / 256) as u8,
            (y_start % 256) as u8,
            (y_end / 256) as u8,
            (y_end % 256) as u8,
        ]);
    }
    assert(window_plan(x_start, y_start, x_end, y_end) =~= seq![
        Transfer::CommandWithData(
            0x2A,
            seq![
                (x_start / 256) as u8,
                (x_start % 256) as u8,
                (x_end / 256) as u8,
                (x_end % 256) as u8,
            ],
        ),
        Transfer::CommandWithData(
            0x2B,
            seq![
                (y_start / 256) as u8,
                (y_start % 256) as u8,
                (y_end / 256) as u8,
                (y_end % 256) as u8,
            ],
        ),
    ]);
}

/// The brightness parameters are the value clamped to 1023, low byte first.
pub proof fn law_brightness_transfer(value: u16)
    ensures
        brightness_bytes(value) == if value < 1023 {
            seq![(value % 256) as u8, (value / 256) as u8]
        } else {
            seq![0xFFu8, 0x03u8]
        },
{
}

/// Drawing pixel (x, y) of a `width` x `height` screen writes the pixel's `n` bytes at
/// offset `(y * width + x) * n` and leaves every other byte; a point off the screen
/// (negative, or at or past the width or height) changes nothing.
pub proof fn law_draw_writes_at_pixel_offset(
    frame: Seq<u8>,
    x: int,
    y: int,
    width: int,
    height: int,
    bytes: Seq<u8>,
)
    requires
        width * height * bytes.len() <= frame.len(),
    ensures
        ({
            let n = bytes.len() as int;
            let after = frame_with_pixel(frame, x, y, width, height, bytes);
            &&& !(0 <= x < width && 0 <= y < height) ==> after == frame
            &&& 0 <= x < width && 0 <= y < height ==> {
                &&& after.len() == frame.len()
                &&& forall|j: int| 0 <= j < n ==> #[trigger] after[(y * width + x) * n + j] == bytes[j]
                &&& forall|i: int|
                    0 <= i < frame.len() && !((y * width + x) * n <= i < (y * width + x) * n + n)
                        ==> #[trigger] after[i] == frame[i]
            }
        }),
{
    if 0 <= x < width && 0 <= y < height {
        lemma_pixel_fits(x, y, width, height, bytes.len() as int);
    }
}

/// Command codes of the SH8601 as the driver sends them.
pub proof fn law_command_codes()
    ensures
        SWRESET == 0x01,
        SLPIN == 0x10,
        SLPOUT == 0x11,
        DISPOFF == 0x28,
        DISPON == 0x29,
        CASET == 0x2A,
        PASET == 0x2B,
        PTLAR == 0x30,
        TEON == 0x35,
        MADCTL == 0x36,
        COLMOD == 0x3A,
        TESCAN == 0x44,
        WRDISBV == 0x51,
        SLEEP_SETTLE_MS == 5,
{
}

/// A framebuffer type can be built exactly when `N` bytes hold `WIDTH * HEIGHT` pixels of
/// `bytes_per_pixel` bytes each.
pub proof fn law_framebuffer_room<C: SH8601ColorMode, const WIDTH: usize, const HEIGHT: usize, const N: usize>()
    ensures
        Framebuffer::<C, WIDTH, HEIGHT, N>::fits() <==> WIDTH * HEIGHT * C::spec_bytes_per_pixel()
            <= N,
{
}

} // verus!
