//! Properties of the driver stated over several operations or all inputs.
use vstd::prelude::*;

use crate::driver::{
    partial_flush_fits, region_bytes, row_fits, row_start, rows_fit, startup_step_accepted,
    window_error,
};
use crate::framebuffer::{frame_with_pixel, lemma_pixel_fits, pixel_offset, point_on_screen};
use crate::protocol::{
    accepted_all, be16, brightness_bytes, clamped_brightness, init_script, init_step_accepted,
    init_transfers, performed, range_bytes, refused_at, script_transfers, Exchange, InitEntry,
    Transfer,
};

verus! {

/// An interface's history only grows: running a plan, accepted or refused, keeps every
/// earlier exchange and adds at most as many as the plan has transfers.
pub proof fn law_history_extends<E>(
    before: Seq<Exchange<E>>,
    after: Seq<Exchange<E>>,
    plan: Seq<Transfer>,
    outcome: Result<(), E>,
)
    requires
        performed(before, after, plan, outcome),
    ensures
        before.len() <= after.len() <= before.len() + plan.len(),
        after.subrange(0, before.len() as int) == before,
{
    match outcome {
        Ok(_) => {
            assert(after.subrange(0, before.len() as int) =~= before);
        },
        Err(e) => {
            let k = choose|k: int|
                0 <= k < plan.len() && after == before + #[trigger] refused_at(plan, k, e);
            assert(after.subrange(0, before.len() as int) =~= before);
        },
    }
}

/// CASET and PASET parameters decode back to the range: start then end, each most
/// significant byte first.
pub proof fn law_range_bytes_decode(start: u16, end: u16)
    ensures
        range_bytes(start, end).len() == 4,
        range_bytes(start, end)[0] * 256 + range_bytes(start, end)[1] == start,
        range_bytes(start, end)[2] * 256 + range_bytes(start, end)[3] == end,
{
    assert(be16(start)[0] * 256 + be16(start)[1] == start);
    assert(be16(end)[0] * 256 + be16(end)[1] == end);
}

/// The brightness parameters decode to the value clamped to 10 bits
/// (0x000 - 0x3FF); values at or above 0x3FF all give full brightness.
pub proof fn law_brightness_clamped(value: u16)
    ensures
        brightness_bytes(value).len() == 2,
        brightness_bytes(value)[1] <= 3,
        brightness_bytes(value)[0] + 256 * brightness_bytes(value)[1] == clamped_brightness(value),
        clamped_brightness(value) == if value < 0x3FF { value } else { 0x3FF },
        value >= 0x3FF ==> brightness_bytes(value) == brightness_bytes(0x3FF),
{
}

/// Reading back a drawn pixel: after pixel (x, y) is set to `bytes`, the framebuffer holds
/// those bytes at the pixel's offset, and every byte outside them is unchanged.
pub proof fn law_pixel_read_back(
    frame: Seq<u8>,
    x: int,
    y: int,
    width: int,
    height: int,
    bytes: Seq<u8>,
)
    requires
        point_on_screen(x, y, width, height),
        width * height * bytes.len() <= frame.len(),
    ensures
        ({
            let at = pixel_offset(x, y, width, bytes.len() as int);
            let after = frame_with_pixel(frame, x, y, width, height, bytes);
            &&& after.len() == frame.len()
            &&& after.subrange(at, at + bytes.len()) == bytes
            &&& forall|i: int|
                0 <= i < frame.len() && !(at <= i < at + bytes.len()) ==> after[i] == frame[i]
        }),
{
    let at = pixel_offset(x, y, width, bytes.len() as int);
    lemma_pixel_fits(x, y, width, height, bytes.len() as int);
    let after = frame_with_pixel(frame, x, y, width, height, bytes);
    assert(after.subrange(at, at + bytes.len()) =~= bytes);
}

/// Drawing a pixel leaves every other pixel of the screen as it was.
pub proof fn law_pixel_independent(
    frame: Seq<u8>,
    x: int,
    y: int,
    x2: int,
    y2: int,
    width: int,
    height: int,
    bytes: Seq<u8>,
)
    requires
        point_on_screen(x, y, width, height),
        point_on_screen(x2, y2, width, height),
        x != x2 || y != y2,
        width * height * bytes.len() <= frame.len(),
    ensures
        ({
            let n = bytes.len() as int;
            let at2 = pixel_offset(x2, y2, width, n);
            frame_with_pixel(frame, x, y, width, height, bytes).subrange(at2, at2 + n)
                == frame.subrange(at2, at2 + n)
        }),
{
    let n = bytes.len() as int;
    let at = pixel_offset(x, y, width, n);
    let at2 = pixel_offset(x2, y2, width, n);
    law_pixel_read_back(frame, x, y, width, height, bytes);
    lemma_pixel_fits(x2, y2, width, height, n);
    let p = y * width + x;
    let p2 = y2 * width + x2;
    assert(p != p2) by (nonlinear_arith)
        requires
            p == y * width + x,
            p2 == y2 * width + x2,
            0 <= x < width,
            0 <= x2 < width,
            x != x2 || y != y2,
    {
        if y == y2 {
        } else if y < y2 {
            assert(y * width + width <= y2 * width);
        } else {
            assert(y2 * width + width <= y * width);
        }
    }
    // distinct pixel indices give disjoint byte ranges
    assert(at2 + n <= at || at + n <= at2) by (nonlinear_arith)
        requires
            at == p * n,
            at2 == p2 * n,
            p != p2,
            n >= 0,
    {
        if p < p2 {
            assert(p * n + n <= p2 * n);
        } else {
            assert(p2 * n + n <= p * n);
        }
    }
    let after = frame_with_pixel(frame, x, y, width, height, bytes);
    assert(after.subrange(at2, at2 + n) =~= frame.subrange(at2, at2 + n));
}

/// The first `rows` full-width rows of a window at the origin are the first
/// `rows * width * bpp` bytes of the frame.
proof fn lemma_full_rows(frame: Seq<u8>, width: int, rows: int, bpp: int)
    requires
        width >= 0,
        bpp >= 0,
        0 <= rows,
        rows * (width * bpp) <= frame.len(),
    ensures
        region_bytes(frame, 0, 0, width, rows, width, bpp) == frame.take(rows * (width * bpp)),
    decreases rows,
{
    if rows > 0 {
        let w = width * bpp;
        assert(w >= 0) by (nonlinear_arith)
            requires
                width >= 0,
                bpp >= 0,
                w == width * bpp,
        ;
        assert((rows - 1) * w + w == rows * w) by (nonlinear_arith);
        assert(0 <= (rows - 1) * w) by (nonlinear_arith)
            requires
                rows >= 1,
                w >= 0,
        ;
        lemma_full_rows(frame, width, rows - 1, bpp);
        assert(row_start(0, 0, rows - 1, width, bpp) == (rows - 1) * w);
        assert(region_bytes(frame, 0, 0, width, rows, width, bpp) == region_bytes(
            frame,
            0,
            0,
            width,
            rows - 1,
            width,
            bpp,
        ) + frame.subrange((rows - 1) * w, (rows - 1) * w + w));
        assert(frame.take((rows - 1) * w) + frame.subrange((rows - 1) * w, rows * w) =~= frame.take(
            rows * w,
        ));
    } else {
        assert(rows == 0);
        vstd::arithmetic::mul::lemma_mul_basics(width * bpp);
        assert(frame.take(0) =~= Seq::<u8>::empty());
    }
}

/// A partial flush of the whole screen sends the same bytes as a full flush: when the
/// framebuffer holds exactly the screen, every row of the full-screen window fits and the
/// gathered rows are the whole framebuffer.
pub proof fn law_full_window_is_whole_frame(frame: Seq<u8>, width: int, height: int, bpp: int)
    requires
        width >= 1,
        height >= 1,
        bpp >= 1,
        frame.len() == width * height * bpp,
    ensures
        rows_fit(0, 0, width, height, width, bpp, frame.len() as int),
        region_bytes(frame, 0, 0, width, height, width, bpp) == frame,
{
    assert(height * (width * bpp) == width * height * bpp) by (nonlinear_arith);
    lemma_full_rows(frame, width, height, bpp);
    assert(frame.take(height * (width * bpp)) =~= frame);
    assert forall|r: int| 0 <= r < height implies #[trigger] row_fits(
        0,
        0,
        width,
        r,
        width,
        bpp,
        frame.len() as int,
    ) by {
        assert(width * bpp >= 1) by (nonlinear_arith)
            requires
                width >= 1,
                bpp >= 1,
        ;
        assert(r * (width * bpp) + width * bpp <= height * (width * bpp)) by (nonlinear_arith)
            requires
                r + 1 <= height,
                width * bpp >= 1,
        ;
    }
}

proof fn lemma_script_run<E>(script: Seq<InitEntry>, logs: Seq<Seq<Exchange<E>>>, k: int)
    requires
        logs.len() == script.len() + 1,
        0 <= k <= script.len(),
        forall|i: int|
            0 <= i < script.len() ==> #[trigger] init_step_accepted(logs[i], logs[i + 1], script[i]),
    ensures
        logs[k] == logs[0] + accepted_all(script_transfers(script.take(k))),
    decreases k,
{
    if k == 0 {
        assert(script.take(0) =~= Seq::<InitEntry>::empty());
        assert(logs[0] + accepted_all::<E>(Seq::<Transfer>::empty()) =~= logs[0]);
    } else {
        lemma_script_run(script, logs, k - 1);
        assert(script.take(k).drop_last() =~= script.take(k - 1));
        let i = k - 1;
        assert(init_step_accepted(logs[i], logs[i + 1], script[i]));
        let prev = script_transfers(script.take(k - 1));
        match script[k - 1] {
            InitEntry::Send(t) => {
                assert(accepted_all::<E>(prev.push(t)) =~= accepted_all::<E>(prev) + accepted_all::<E>(
                    seq![t],
                ));
            },
            InitEntry::Wait(_) => {},
        }
    }
}

/// A complete initialization whose every step succeeded has handed the interface exactly
/// the transfers of the initialization sequence, in order, each accepted. `logs[i]` is the
/// interface's history before step `i`.
pub proof fn law_initialization_sends_script<E>(colmod: u8, logs: Seq<Seq<Exchange<E>>>)
    requires
        logs.len() == init_script(colmod).len() + 1,
        forall|i: int|
            0 <= i < init_script(colmod).len() ==> #[trigger] init_step_accepted(
                logs[i],
                logs[i + 1],
                init_script(colmod)[i],
            ),
    ensures
        logs.last() == logs[0] + accepted_all(init_transfers(colmod)),
{
    let script = init_script(colmod);
    lemma_script_run(script, logs, script.len() as int);
    assert(script.take(script.len() as int) =~= script);
}

proof fn lemma_resets_unchanged<RE>(resets: Seq<Seq<Result<(), RE>>>, k: int)
    requires
        1 <= k < resets.len(),
        forall|i: int| 1 <= i < resets.len() - 1 ==> #[trigger] resets[i + 1] == resets[i],
    ensures
        resets[k] == resets[1],
    decreases k,
{
    if k > 1 {
        lemma_resets_unchanged(resets, k - 1);
        let i = k - 1;
        assert(resets[i + 1] == resets[i]);
    }
}

/// Bringing the display up with every step successful resets it exactly once, before any
/// interface call, and then hands the interface exactly the transfers of the
/// initialization sequence, in order. `resets[i]` and `logs[i]` are the reset pin's and the
/// interface's histories before startup step `i`.
pub proof fn law_startup_resets_then_sends_script<IE, RE>(
    colmod: u8,
    resets: Seq<Seq<Result<(), RE>>>,
    logs: Seq<Seq<Exchange<IE>>>,
)
    requires
        resets.len() == init_script(colmod).len() + 2,
        logs.len() == init_script(colmod).len() + 2,
        forall|i: int|
            0 <= i < init_script(colmod).len() + 1 ==> #[trigger] startup_step_accepted(
                resets[i],
                resets[i + 1],
                logs[i],
                logs[i + 1],
                colmod,
                i,
            ),
    ensures
        resets.last() == resets[0].push(Ok(())),
        logs[1] == logs[0],
        logs.last() == logs[0] + accepted_all(init_transfers(colmod)),
{
    let n = init_script(colmod).len() as int;
    let z = 0int;
    assert(startup_step_accepted(resets[z], resets[z + 1], logs[z], logs[z + 1], colmod, z));
    assert forall|i: int| 1 <= i < resets.len() - 1 implies #[trigger] resets[i + 1] == resets[i] by {
        assert(startup_step_accepted(resets[i], resets[i + 1], logs[i], logs[i + 1], colmod, i));
    }
    lemma_resets_unchanged(resets, n + 1);
    let tail = logs.subrange(1, n + 2);
    assert forall|i: int| 0 <= i < n implies #[trigger] init_step_accepted(
        tail[i],
        tail[i + 1],
        init_script(colmod)[i],
    ) by {
        let j = i + 1;
        assert(startup_step_accepted(resets[j], resets[j + 1], logs[j], logs[j + 1], colmod, j));
        assert(tail[i] == logs[j]);
        assert(tail[i + 1] == logs[j + 1]);
    }
    law_initialization_sends_script(colmod, tail);
}

/// A partial flush of the whole screen hands the interface the same transfers as a
/// flush: when the framebuffer holds exactly the screen (and, a machine limit, at most
/// `isize::MAX` bytes), the whole-screen window is valid, the partial flush's arithmetic
/// stays in range, every row fits, and the gathered rows are the whole framebuffer, so both
/// send `window_plan(0, 0, width - 1, height - 1)` followed by the framebuffer bytes.
pub proof fn law_whole_screen_partial_flush_is_flush(
    frame: Seq<u8>,
    width: u16,
    height: u16,
    bpp: int,
)
    requires
        width >= 2,
        height >= 2,
        bpp >= 1,
        frame.len() == width * height * bpp,
        frame.len() <= isize::MAX,
    ensures
        window_error(0, 0, (width - 1) as u16, (height - 1) as u16, width, height) is None,
        partial_flush_fits(
            0,
            (width - 1) as u16,
            0,
            (height - 1) as u16,
            width as int,
            bpp,
            frame.len() as int,
        ),
        rows_fit(0, 0, width as int, height as int, width as int, bpp, frame.len() as int),
        region_bytes(frame, 0, 0, width as int, height as int, width as int, bpp) == frame,
{
    let w = width as int;
    let h = height as int;
    let n = frame.len() as int;
    law_full_window_is_whole_frame(frame, w, h, bpp);
    assert(w * bpp >= 1) by (nonlinear_arith)
        requires
            w >= 1,
            bpp >= 1,
    ;
    assert(w * h * bpp == h * (w * bpp)) by (nonlinear_arith);
    assert forall|r: int|
        0 <= r < h && rows_fit(0, 0, w, r, w, bpp, n) implies #[trigger] row_start(
        0,
        0,
        r,
        w,
        bpp,
    ) + w * bpp <= usize::MAX by {
        assert(r * (w * bpp) + w * bpp <= h * (w * bpp)) by (nonlinear_arith)
            requires
                r + 1 <= h,
                w * bpp >= 1,
        ;
    }
}

} // verus!
