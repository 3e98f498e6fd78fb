//! The SH8601 driver: command sequencing over a controller interface, and the framebuffer.
use vstd::prelude::*;

use crate::color::{le_bytes, SH8601ColorMode};
use crate::commands::{
    CASET, COLMOD, DISPOFF, DISPON, MADCTL, PASET, PTLAR, SLPIN, SLPOUT, SWRESET, TEON, TESCAN,
    WRDISBV,
};
use crate::framebuffer::{frame_with_pixel, Framebuffer};
use crate::protocol::{
    brightness_bytes, brightness_params, init_script, init_step_accepted, lemma_performed_append,
    lemma_performed_refused_prefix, lemma_performed_single, performed, range_bytes, range_params,
    window_plan, Exchange, InitEntry, Transfer,
};

verus! {

/// The controller communication interface (QSPI, SPI, ...), implemented by the user.
///
/// `history` is every transfer the interface has been handed, in order, with what it
/// answered; each method appends exactly its own transfer and answer. These contracts are
/// what an implementation promises; an unverified implementation still has to provide
/// `history`, as a method that is never called.
pub trait ControllerInterface {
    /// The specific error type for this interface implementation.
    type Error;

    /// Every transfer handed to this interface so far, with its outcome.
    spec fn history(&self) -> Seq<Exchange<Self::Error>>;

    /// Sends a command byte to the display.
    fn send_command(&mut self, cmd: u8) -> (r: Result<(), Self::Error>)
        ensures
            final(self).history() == old(self).history().push(
                Exchange { transfer: Transfer::Command(cmd), outcome: r },
            ),
    ;

    /// Sends a command byte followed by parameter bytes.
    fn send_command_with_data(&mut self, cmd: u8, data: &[u8]) -> (r: Result<(), Self::Error>)
        ensures
            final(self).history() == old(self).history().push(
                Exchange { transfer: Transfer::CommandWithData(cmd, data@), outcome: r },
            ),
    ;

    /// Sends pixel data (the implementation issues the memory write command itself).
    fn send_pixels(&mut self, pixels: &[u8]) -> (r: Result<(), Self::Error>)
        ensures
            final(self).history() == old(self).history().push(
                Exchange { transfer: Transfer::Pixels(pixels@), outcome: r },
            ),
    ;
}

/// Control of the SH8601 hardware reset pin, implemented by the user.
///
/// `history` is the outcome of every reset performed so far, in order; an unverified
/// implementation still has to provide it, as a method that is never called.
pub trait ResetInterface {
    /// The specific error type for this reset implementation.
    type Error;

    /// The outcome of every reset so far.
    spec fn history(&self) -> Seq<Result<(), Self::Error>>;

    /// Performs the hardware reset sequence: clear the reset line, wait 20 ms,
    /// set it high and wait 150 ms.
    fn reset(&mut self) -> (r: Result<(), Self::Error>)
        ensures
            final(self).history() == old(self).history().push(r),
    ;
}

/// SH8601 driver errors.
#[derive(Debug)]
pub enum DriverError<InterfaceError, ResetError> {
    /// Error originating from the display interface (QSPI/SPI/I2C).
    InterfaceError(InterfaceError),
    /// Error originating from the reset pin control.
    ResetError(ResetError),
    /// Invalid configuration provided to the driver.
    InvalidConfiguration(&'static str),
}

/// Where the driver stands in the initialization sequence after one step.
#[derive(Debug, Clone, Copy, PartialEq, Eq, Structural)]
pub enum InitProgress {
    /// The step's transfer was sent and accepted.
    Sent,
    /// The caller must wait this many milliseconds before the next step.
    Delay(u32),
    /// The sequence is complete.
    Done,
}

/// Milliseconds to wait after SLPIN or SLPOUT.
pub const SLEEP_SETTLE_MS: u32 = 5;

/// The configuration error for a window, if any, checked in this order: a zero end
/// coordinate, a start outside the display, an end before the start.
pub open spec fn window_error(
    x_start: u16,
    y_start: u16,
    x_end: u16,
    y_end: u16,
    width: u16,
    height: u16,
) -> Option<&'static str> {
    if x_end == 0 || y_end == 0 {
        Some("Window width/height cannot be zero")
    } else if x_start >= width || y_start >= height {
        Some("Window start coordinates out of bounds")
    } else if x_end < x_start || y_end < y_start {
        Some("Invalid window dimensions (end < start)")
    } else {
        None
    }
}

/// `res` reports how running `plan` took the interface's history from `before` to
/// `after`: `Ok` when every transfer was accepted, and otherwise the interface's own error
/// for the transfer it refused, after which nothing more was sent.
pub open spec fn ran<T, IE, RE>(
    before: Seq<Exchange<IE>>,
    after: Seq<Exchange<IE>>,
    plan: Seq<Transfer>,
    res: Result<T, DriverError<IE, RE>>,
) -> bool {
    match res {
        Ok(_) => performed(before, after, plan, Ok(())),
        Err(DriverError::InterfaceError(e)) => performed(before, after, plan, Err(e)),
        Err(_) => false,
    }
}

/// What step `step` of the initialization sequence answers and does to the interface's
/// history: past the end it answers `Done`; a wait is answered with its duration; a
/// transfer is sent and answered `Sent`, or the interface's error is returned.
pub open spec fn init_step_outcome<IE, RE>(
    before: Seq<Exchange<IE>>,
    after: Seq<Exchange<IE>>,
    colmod: u8,
    step: int,
    res: Result<InitProgress, DriverError<IE, RE>>,
) -> bool {
    if step < 0 || step >= init_script(colmod).len() {
        res == Ok::<InitProgress, DriverError<IE, RE>>(InitProgress::Done) && after == before
    } else {
        match init_script(colmod)[step] {
            InitEntry::Wait(ms) => res == Ok::<InitProgress, DriverError<IE, RE>>(
                InitProgress::Delay(ms),
            ) && after == before,
            InitEntry::Send(t) => ran(before, after, seq![t], res) && (res is Ok ==> res->Ok_0
                == InitProgress::Sent),
        }
    }
}

/// Step `step` of the initialization sequence sends nothing: a wait, or past the end.
pub open spec fn init_step_silent(colmod: u8, step: int) -> bool {
    step < 0 || step >= init_script(colmod).len() || init_script(colmod)[step] is Wait
}

/// What a successful step of bringing the display up does: step 0 is one reset, which
/// the reset pin accepted, and no interface call; step `k + 1` is step `k` of the
/// initialization sequence, with the reset pin untouched.
pub open spec fn startup_step_accepted<IE, RE>(
    resets_before: Seq<Result<(), RE>>,
    resets_after: Seq<Result<(), RE>>,
    before: Seq<Exchange<IE>>,
    after: Seq<Exchange<IE>>,
    colmod: u8,
    step: int,
) -> bool {
    if step == 0 {
        resets_after == resets_before.push(Ok(())) && after == before
    } else {
        resets_after == resets_before && init_step_accepted(
            before,
            after,
            init_script(colmod)[step - 1],
        )
    }
}

/// Byte offset of row `r` of a window starting at (x0, y0), on a screen `screen_width`
/// pixels wide with `bpp` bytes per pixel.
pub open spec fn row_start(x0: int, y0: int, r: int, screen_width: int, bpp: int) -> int {
    (y0 + r) * (screen_width * bpp) + x0 * bpp
}

/// Row `r` of the window lies within the `n` framebuffer bytes.
pub open spec fn row_fits(
    x0: int,
    y0: int,
    cols: int,
    r: int,
    screen_width: int,
    bpp: int,
    n: int,
) -> bool {
    let s = row_start(x0, y0, r, screen_width, bpp);
    s < n && s + cols * bpp <= n
}

/// The first `rows` rows of the window, `cols` pixels each, concatenated.
pub open spec fn region_bytes(
    frame: Seq<u8>,
    x0: int,
    y0: int,
    cols: int,
    rows: int,
    screen_width: int,
    bpp: int,
) -> Seq<u8>
    decreases rows,
{
    if rows <= 0 {
        Seq::empty()
    } else {
        let s = row_start(x0, y0, rows - 1, screen_width, bpp);
        region_bytes(frame, x0, y0, cols, rows - 1, screen_width, bpp) + frame.subrange(
            s,
            s + cols * bpp,
        )
    }
}

/// Every one of the first `rows` rows of the window lies within the `n` bytes.
pub open spec fn rows_fit(
    x0: int,
    y0: int,
    cols: int,
    rows: int,
    screen_width: int,
    bpp: int,
    n: int,
) -> bool {
    forall|r: int| 0 <= r < rows ==> #[trigger] row_fits(x0, y0, cols, r, screen_width, bpp, n)
}

/// The arithmetic of a partial flush stays within `usize`: the buffer capacity, and the
/// offsets of each row that is reached (rows are reached while the earlier ones fit).
pub open spec fn partial_flush_fits(
    x_start: u16,
    x_end: u16,
    y_start: u16,
    y_end: u16,
    screen_width: int,
    bpp: int,
    n: int,
) -> bool {
    let cols: int = x_end - x_start + 1;
    let rows: int = y_end - y_start + 1;
    &&& x_end - x_start < 0xFFFF
    &&& y_end - y_start < 0xFFFF
    &&& cols * rows * bpp <= isize::MAX
    &&& forall|r: int|
        0 <= r < rows && rows_fit(x_start as int, y_start as int, cols, r, screen_width, bpp, n)
            ==> #[trigger] row_start(x_start as int, y_start as int, r, screen_width, bpp) + cols
            * bpp <= usize::MAX
}

/// Main driver for the SH8601 display controller, generic over the display interface
/// (`IFACE`), the reset pin (`RST`) and the pixel format (`COLOR`).
pub struct Sh8601Driver<IFACE, RST, COLOR, const WIDTH: usize, const HEIGHT: usize, const N: usize>
    where IFACE: ControllerInterface, RST: ResetInterface, COLOR: SH8601ColorMode {
    interface: IFACE,
    reset: RST,
    framebuffer: Framebuffer<COLOR, WIDTH, HEIGHT, N>,
}

impl<IFACE, RST, COLOR, const WIDTH: usize, const HEIGHT: usize, const N: usize> Sh8601Driver<
    IFACE,
    RST,
    COLOR,
    WIDTH,
    HEIGHT,
    N,
> where IFACE: ControllerInterface, RST: ResetInterface, COLOR: SH8601ColorMode {
    /// The controller interface the driver talks through.
    pub closed spec fn interface(&self) -> IFACE {
        self.interface
    }

    /// The reset pin interface.
    pub closed spec fn reset_pin(&self) -> RST {
        self.reset
    }

    /// The framebuffer content.
    pub closed spec fn frame(&self) -> Seq<u8> {
        self.framebuffer@
    }

    /// Creates a driver around an interface, a reset pin and a framebuffer; nothing is sent.
    pub fn new(
        interface: IFACE,
        reset: RST,
        framebuffer: Framebuffer<COLOR, WIDTH, HEIGHT, N>,
    ) -> (driver: Self)
        ensures
            driver.interface() == interface,
            driver.reset_pin() == reset,
            driver.frame() == framebuffer@,
    {
        Sh8601Driver { interface, reset, framebuffer }
    }

    /// Performs a hardware reset using the reset interface.
    pub fn hard_reset(&mut self) -> (res: Result<(), DriverError<IFACE::Error, RST::Error>>)
        ensures
            final(self).interface() == old(self).interface(),
            final(self).frame() == old(self).frame(),
            old(self).reset_pin().history().len() + 1 == final(self).reset_pin().history().len(),
            final(self).reset_pin().history().drop_last() == old(self).reset_pin().history(),
            match final(self).reset_pin().history().last() {
                Ok(_) => res is Ok,
                Err(e) => res == Err::<(), DriverError<IFACE::Error, RST::Error>>(
                    DriverError::ResetError(e),
                ),
            },
    {
        let r = self.reset.reset();
        match r {
            Ok(()) => Ok(()),
            Err(e) => Err(DriverError::ResetError(e)),
        }
    }

    /// Sends a command with no data.
    fn send_command(&mut self, cmd: u8) -> (res: Result<(), DriverError<IFACE::Error, RST::Error>>)
        ensures
            final(self).reset_pin() == old(self).reset_pin(),
            final(self).frame() == old(self).frame(),
            ran(
                old(self).interface().history(),
                final(self).interface().history(),
                seq![Transfer::Command(cmd)],
                res,
            ),
    {
        let ghost before = self.interface.history();
        let r = self.interface.send_command(cmd);
        proof {
            lemma_performed_single(before, Transfer::Command(cmd), r);
        }
        match r {
            Ok(()) => Ok(()),
            Err(e) => Err(DriverError::InterfaceError(e)),
        }
    }

    /// Sends a command with its parameter bytes.
    fn send_command_with_data(&mut self, cmd: u8, data: &[u8]) -> (res: Result<
        (),
        DriverError<IFACE::Error, RST::Error>,
    >)
        ensures
            final(self).reset_pin() == old(self).reset_pin(),
            final(self).frame() == old(self).frame(),
            ran(
                old(self).interface().history(),
                final(self).interface().history(),
                seq![Transfer::CommandWithData(cmd, data@)],
                res,
            ),
    {
        let ghost before = self.interface.history();
        let r = self.interface.send_command_with_data(cmd, data);
        proof {
            lemma_performed_single(before, Transfer::CommandWithData(cmd, data@), r);
        }
        match r {
            Ok(()) => Ok(()),
            Err(e) => Err(DriverError::InterfaceError(e)),
        }
    }

    /// Sends pixel data.
    fn send_pixels(&mut self, pixels: &[u8]) -> (res: Result<
        (),
        DriverError<IFACE::Error, RST::Error>,
    >)
        ensures
            final(self).reset_pin() == old(self).reset_pin(),
            final(self).frame() == old(self).frame(),
            ran(
                old(self).interface().history(),
                final(self).interface().history(),
                seq![Transfer::Pixels(pixels@)],
                res,
            ),
    {
        let ghost before = self.interface.history();
        let r = self.interface.send_pixels(pixels);
        proof {
            lemma_performed_single(before, Transfer::Pixels(pixels@), r);
        }
        match r {
            Ok(()) => Ok(()),
            Err(e) => Err(DriverError::InterfaceError(e)),
        }
    }

    /// Sends CASET then PASET for the window, without checking it.
    fn send_window(&mut self, x_start: u16, y_start: u16, x_end: u16, y_end: u16) -> (res: Result<
        (),
        DriverError<IFACE::Error, RST::Error>,
    >)
        ensures
            final(self).reset_pin() == old(self).reset_pin(),
            final(self).frame() == old(self).frame(),
            ran(
                old(self).interface().history(),
                final(self).interface().history(),
                window_plan(x_start, y_start, x_end, y_end),
                res,
            ),
    {
        let ghost before = self.interface.history();
        let ghost caset = seq![Transfer::CommandWithData(CASET, range_bytes(x_start, x_end))];
        let ghost paset = seq![Transfer::CommandWithData(PASET, range_bytes(y_start, y_end))];
        assert(window_plan(x_start, y_start, x_end, y_end) =~= caset + paset);
        let columns = range_params(x_start, x_end);
        let r1 = self.send_command_with_data(CASET, columns.as_slice());
        let ghost mid = self.interface.history();
        match r1 {
            Ok(()) => {},
            Err(e) => {
                proof {
                    if e is InterfaceError {
                        let ie = e->InterfaceError_0;
                        lemma_performed_refused_prefix(before, mid, caset, paset, ie);
                    }
                }
                return Err(e);
            },
        }
        let pages = range_params(y_start, y_end);
        let r2 = self.send_command_with_data(PASET, pages.as_slice());
        proof {
            if r2 is Ok {
                lemma_performed_append(before, mid, self.interface.history(), caset, paset, Ok(()));
            } else if r2->Err_0 is InterfaceError {
                let ie = r2->Err_0->InterfaceError_0;
                lemma_performed_append(
                    before,
                    mid,
                    self.interface.history(),
                    caset,
                    paset,
                    Err(ie),
                );
            }
        }
        r2
    }

    /// Sets the active drawing window on the display RAM (CASET, then PASET).
    pub fn set_window(&mut self, x_start: u16, y_start: u16, x_end: u16, y_end: u16) -> (res:
        Result<(), DriverError<IFACE::Error, RST::Error>>)
        ensures
            final(self).reset_pin() == old(self).reset_pin(),
            final(self).frame() == old(self).frame(),
            window_error(x_start, y_start, x_end, y_end, WIDTH as u16, HEIGHT as u16) matches Some(
                msg,
            ) ==> res == Err::<(), DriverError<IFACE::Error, RST::Error>>(
                DriverError::InvalidConfiguration(msg),
            ) && final(self).interface() == old(self).interface(),
            window_error(x_start, y_start, x_end, y_end, WIDTH as u16, HEIGHT as u16) is None
                ==> ran(
                old(self).interface().history(),
                final(self).interface().history(),
                window_plan(x_start, y_start, x_end, y_end),
                res,
            ),
    {
        if x_end == 0 || y_end == 0 {
            return Err(DriverError::InvalidConfiguration("Window width/height cannot be zero"));
        }
        if x_start >= WIDTH as u16 || y_start >= HEIGHT as u16 {
            return Err(DriverError::InvalidConfiguration("Window start coordinates out of bounds"));
        }
        if x_end < x_start || y_end < y_start {
            return Err(
                DriverError::InvalidConfiguration("Invalid window dimensions (end < start)"),
            );
        }
        self.send_window(x_start, y_start, x_end, y_end)
    }

    /// Sends the step `step` of the initialization sequence. A step that is a wait is
    /// handed back as `InitProgress::Delay` for the caller to perform; past the last step
    /// the answer is `InitProgress::Done`.
    pub fn initialize_display_step(&mut self, step: usize) -> (res: Result<
        InitProgress,
        DriverError<IFACE::Error, RST::Error>,
    >)
        ensures
            final(self).reset_pin() == old(self).reset_pin(),
            final(self).frame() == old(self).frame(),
            init_step_outcome(
                old(self).interface().history(),
                final(self).interface().history(),
                COLOR::spec_command_parameter(),
                step as int,
                res,
            ),
            init_step_silent(COLOR::spec_command_parameter(), step as int) ==> final(self).interface() == old(self).interface(),
            step < init_script(COLOR::spec_command_parameter()).len() && res is Ok
                ==> init_step_accepted(
                old(self).interface().history(),
                final(self).interface().history(),
                init_script(COLOR::spec_command_parameter())[step as int],
            ),
    {
        let r = match step {
            0 => self.send_command(SWRESET),
            1 => {
                return Ok(InitProgress::Delay(10));
            },
            2 => self.send_command(SLPOUT),
            3 => {
                return Ok(InitProgress::Delay(120));
            },
            4 => {
                let mut params: Vec<u8> = Vec::new();
                params.push(COLOR::command_parameter());
                assert(params@ =~= seq![COLOR::spec_command_parameter()]);
                self.send_command_with_data(COLMOD, params.as_slice())
            },
            5 => {
                return Ok(InitProgress::Delay(5));
            },
            6 => {
                let mut params: Vec<u8> = Vec::new();
                params.push(0x00u8);
                assert(params@ =~= seq![0x00u8]);
                self.send_command_with_data(MADCTL, params.as_slice())
            },
            7 => {
                let mut params: Vec<u8> = Vec::new();
                params.push(0x01u8);
                params.push(0xC5u8);
                assert(params@ =~= seq![0x01u8, 0xC5u8]);
                self.send_command_with_data(TESCAN, params.as_slice())
            },
            8 => {
                let mut params: Vec<u8> = Vec::new();
                params.push(0x00u8);
                assert(params@ =~= seq![0x00u8]);
                self.send_command_with_data(TEON, params.as_slice())
            },
            9 => self.send_command(DISPON),
            10 => {
                return Ok(InitProgress::Delay(120));
            },
            11 => {
                let mut params: Vec<u8> = Vec::new();
                params.push(0x00u8);
                params.push(0x80u8);
                params.push(0x00u8);
                params.push(0x02u8);
                assert(params@ =~= seq![0x00u8, 0x80u8, 0x00u8, 0x02u8]);
                self.send_command_with_data(PTLAR, params.as_slice())
            },
            12 => {
                return Ok(InitProgress::Delay(10));
            },
            _ => {
                return Ok(InitProgress::Done);
            },
        };
        match r {
            Ok(()) => Ok(InitProgress::Sent),
            Err(e) => Err(e),
        }
    }

    /// Step `step` of bringing the display up: step 0 is the hardware reset, and step
    /// `k + 1` is step `k` of the initialization sequence. A caller runs the steps in order
    /// from 0, performs each returned delay, stops at the first error, and is done at
    /// `InitProgress::Done`.
    pub fn startup_step(&mut self, step: usize) -> (res: Result<
        InitProgress,
        DriverError<IFACE::Error, RST::Error>,
    >)
        ensures
            final(self).frame() == old(self).frame(),
            step == 0 ==> {
                &&& final(self).interface() == old(self).interface()
                &&& final(self).reset_pin().history().len() == old(self).reset_pin().history().len()
                    + 1
                &&& final(self).reset_pin().history().drop_last() == old(self).reset_pin().history()
                &&& match final(self).reset_pin().history().last() {
                    Ok(_) => res == Ok::<InitProgress, DriverError<IFACE::Error, RST::Error>>(
                        InitProgress::Sent,
                    ),
                    Err(e) => res == Err::<InitProgress, DriverError<IFACE::Error, RST::Error>>(
                        DriverError::ResetError(e),
                    ),
                }
            },
            step > 0 ==> {
                &&& final(self).reset_pin() == old(self).reset_pin()
                &&& init_step_outcome(
                    old(self).interface().history(),
                    final(self).interface().history(),
                    COLOR::spec_command_parameter(),
                    step - 1,
                    res,
                )
                &&& init_step_silent(COLOR::spec_command_parameter(), step - 1) ==> final(self).interface() == old(self).interface()
            },
            res is Ok && step <= init_script(COLOR::spec_command_parameter()).len()
                ==> startup_step_accepted(
                old(self).reset_pin().history(),
                final(self).reset_pin().history(),
                old(self).interface().history(),
                final(self).interface().history(),
                COLOR::spec_command_parameter(),
                step as int,
            ),
    {
        if step == 0 {
            match self.hard_reset() {
                Ok(()) => {
                    proof {
                        let last = self.reset.history().last();
                        assert(last is Ok);
                        assert(last->Ok_0 == ());
                        assert(last == Ok::<(), RST::Error>(()));
                        assert(self.reset.history() =~= old(self).reset.history().push(Ok(())));
                    }
                    Ok(InitProgress::Sent)
                },
                Err(e) => Err(e),
            }
        } else {
            self.initialize_display_step(step - 1)
        }
    }

    /// Sleep In (SLPIN). On success the answer is the number of milliseconds the caller
    /// must wait before the next command.
    pub fn sleep_in(&mut self) -> (res: Result<u32, DriverError<IFACE::Error, RST::Error>>)
        ensures
            final(self).reset_pin() == old(self).reset_pin(),
            final(self).frame() == old(self).frame(),
            ran(
                old(self).interface().history(),
                final(self).interface().history(),
                seq![Transfer::Command(SLPIN)],
                res,
            ),
            res is Ok ==> res->Ok_0 == SLEEP_SETTLE_MS,
    {
        match self.send_command(SLPIN) {
            Ok(()) => Ok(SLEEP_SETTLE_MS),
            Err(e) => Err(e),
        }
    }

    /// Sleep Out (SLPOUT). On success the answer is the number of milliseconds the caller
    /// must wait before the next command.
    pub fn sleep_out(&mut self) -> (res: Result<u32, DriverError<IFACE::Error, RST::Error>>)
        ensures
            final(self).reset_pin() == old(self).reset_pin(),
            final(self).frame() == old(self).frame(),
            ran(
                old(self).interface().history(),
                final(self).interface().history(),
                seq![Transfer::Command(SLPOUT)],
                res,
            ),
            res is Ok ==> res->Ok_0 == SLEEP_SETTLE_MS,
    {
        match self.send_command(SLPOUT) {
            Ok(()) => Ok(SLEEP_SETTLE_MS),
            Err(e) => Err(e),
        }
    }

    /// Turns the display panel off (DISPOFF).
    pub fn display_off(&mut self) -> (res: Result<(), DriverError<IFACE::Error, RST::Error>>)
        ensures
            final(self).reset_pin() == old(self).reset_pin(),
            final(self).frame() == old(self).frame(),
            ran(
                old(self).interface().history(),
                final(self).interface().history(),
                seq![Transfer::Command(DISPOFF)],
                res,
            ),
    {
        self.send_command(DISPOFF)
    }

    /// Turns the display panel on (DISPON).
    pub fn display_on(&mut self) -> (res: Result<(), DriverError<IFACE::Error, RST::Error>>)
        ensures
            final(self).reset_pin() == old(self).reset_pin(),
            final(self).frame() == old(self).frame(),
            ran(
                old(self).interface().history(),
                final(self).interface().history(),
                seq![Transfer::Command(DISPON)],
                res,
            ),
    {
        self.send_command(DISPON)
    }

    /// Sets the Memory Data Access Control register (orientation, color order).
    pub fn set_madctl(&mut self, value: u8) -> (res: Result<(), DriverError<IFACE::Error, RST::Error>>)
        ensures
            final(self).reset_pin() == old(self).reset_pin(),
            final(self).frame() == old(self).frame(),
            ran(
                old(self).interface().history(),
                final(self).interface().history(),
                seq![Transfer::CommandWithData(MADCTL, seq![value])],
                res,
            ),
    {
        let mut params: Vec<u8> = Vec::new();
        params.push(value);
        assert(params@ =~= seq![value]);
        self.send_command_with_data(MADCTL, params.as_slice())
    }

    /// Sets the display brightness, clamped to 0x3FF (WRDISBV, low byte then high bits).
    pub fn set_brightness(&mut self, value: u16) -> (res: Result<
        (),
        DriverError<IFACE::Error, RST::Error>,
    >)
        ensures
            final(self).reset_pin() == old(self).reset_pin(),
            final(self).frame() == old(self).frame(),
            ran(
                old(self).interface().history(),
                final(self).interface().history(),
                seq![Transfer::CommandWithData(WRDISBV, brightness_bytes(value))],
                res,
            ),
    {
        let params = brightness_params(value);
        self.send_command_with_data(WRDISBV, params.as_slice())
    }

    /// Sets pixel (x, y) of the framebuffer to `color`; points off the screen are ignored.
    /// Nothing is sent.
    pub fn draw_pixel(&mut self, x: i32, y: i32, color: COLOR)
        ensures
            final(self).interface() == old(self).interface(),
            final(self).reset_pin() == old(self).reset_pin(),
            final(self).frame() == frame_with_pixel(
                old(self).frame(),
                x as int,
                y as int,
                WIDTH as int,
                HEIGHT as int,
                le_bytes(color.spec_storage(), COLOR::spec_bytes_per_pixel()),
            ),
    {
        self.framebuffer.set_pixel(x, y, color);
    }

    /// Writes the whole framebuffer to the display RAM: selects the full-screen window
    /// (columns 0 to WIDTH - 1, pages 0 to HEIGHT - 1), then sends the framebuffer bytes.
    pub fn flush(&mut self) -> (res: Result<(), DriverError<IFACE::Error, RST::Error>>)
        requires
            WIDTH as u16 >= 1,
            HEIGHT as u16 >= 1,
        ensures
            final(self).reset_pin() == old(self).reset_pin(),
            final(self).frame() == old(self).frame(),
            ran(
                old(self).interface().history(),
                final(self).interface().history(),
                window_plan(0, 0, (WIDTH as u16 - 1) as u16, (HEIGHT as u16 - 1) as u16) + seq![
                    Transfer::Pixels(old(self).frame()),
                ],
                res,
            ),
    {
        let ghost before = self.interface.history();
        let ghost pixels = seq![Transfer::Pixels(self.framebuffer@)];
        let x_end = WIDTH as u16 - 1;
        let y_end = HEIGHT as u16 - 1;
        match self.send_window(0, 0, x_end, y_end) {
            Ok(()) => {},
            Err(e) => {
                proof {
                    if e is InterfaceError {
                        let ie = e->InterfaceError_0;
                        lemma_performed_refused_prefix(
                            before,
                            self.interface.history(),
                            window_plan(0, 0, x_end, y_end),
                            pixels,
                            ie,
                        );
                    }
                }
                return Err(e);
            },
        }
        let ghost mid = self.interface.history();
        let r = self.interface.send_pixels(self.framebuffer.as_slice());
        proof {
            lemma_performed_single(mid, Transfer::Pixels(self.framebuffer@), r);
            lemma_performed_append(
                before,
                mid,
                self.interface.history(),
                window_plan(0, 0, x_end, y_end),
                pixels,
                r,
            );
        }
        match r {
            Ok(()) => Ok(()),
            Err(e) => Err(DriverError::InterfaceError(e)),
        }
    }

    /// Writes the framebuffer region from (x_start, y_start) to (x_end, y_end), inclusive,
    /// to the display: selects that window, gathers the region's rows from the framebuffer
    /// and sends them. A row that does not lie within the framebuffer is an error.
    pub fn partial_flush(&mut self, x_start: u16, x_end: u16, y_start: u16, y_end: u16) -> (res:
        Result<(), DriverError<IFACE::Error, RST::Error>>)
        requires
            window_error(x_start, y_start, x_end, y_end, WIDTH as u16, HEIGHT as u16) is None
                ==> partial_flush_fits(
                x_start,
                x_end,
                y_start,
                y_end,
                WIDTH as int,
                COLOR::spec_bytes_per_pixel() as int,
                N as int,
            ),
        ensures
            final(self).reset_pin() == old(self).reset_pin(),
            final(self).frame() == old(self).frame(),
            window_error(x_start, y_start, x_end, y_end, WIDTH as u16, HEIGHT as u16) matches Some(
                msg,
            ) ==> res == Err::<(), DriverError<IFACE::Error, RST::Error>>(
                DriverError::InvalidConfiguration(msg),
            ) && final(self).interface() == old(self).interface(),
            window_error(x_start, y_start, x_end, y_end, WIDTH as u16, HEIGHT as u16) is None
                && rows_fit(
                x_start as int,
                y_start as int,
                x_end - x_start + 1,
                y_end - y_start + 1,
                WIDTH as int,
                COLOR::spec_bytes_per_pixel() as int,
                N as int,
            ) ==> ran(
                old(self).interface().history(),
                final(self).interface().history(),
                window_plan(x_start, y_start, x_end, y_end) + seq![
                    Transfer::Pixels(
                        region_bytes(
                            old(self).frame(),
                            x_start as int,
                            y_start as int,
                            x_end - x_start + 1,
                            y_end - y_start + 1,
                            WIDTH as int,
                            COLOR::spec_bytes_per_pixel() as int,
                        ),
                    ),
                ],
                res,
            ),
            window_error(x_start, y_start, x_end, y_end, WIDTH as u16, HEIGHT as u16) is None
                && !rows_fit(
                x_start as int,
                y_start as int,
                x_end - x_start + 1,
                y_end - y_start + 1,
                WIDTH as int,
                COLOR::spec_bytes_per_pixel() as int,
                N as int,
            ) ==> (res is Err && ran(
                old(self).interface().history(),
                final(self).interface().history(),
                window_plan(x_start, y_start, x_end, y_end),
                res,
            )) || (res == Err::<(), DriverError<IFACE::Error, RST::Error>>(
                DriverError::InvalidConfiguration("Framebuffer slice out of bounds"),
            ) && performed(
                old(self).interface().history(),
                final(self).interface().history(),
                window_plan(x_start, y_start, x_end, y_end),
                Ok(()),
            )),
    {
        let ghost before = self.interface.history();
        let ghost frame0 = self.framebuffer@;
        let ghost bppi: int = COLOR::spec_bytes_per_pixel() as int;
        let ghost cols: int = x_end - x_start + 1;
        let ghost rows: int = y_end - y_start + 1;
        let ghost x0: int = x_start as int;
        let ghost y0: int = y_start as int;
        let ghost sw: int = WIDTH as int;
        let ghost n: int = N as int;
        match self.set_window(x_start, y_start, x_end, y_end) {
            Ok(()) => {},
            Err(e) => {
                proof {
                    let window = window_plan(x_start, y_start, x_end, y_end);
                    let region = region_bytes(frame0, x0, y0, cols, rows, sw, bppi);
                    if e is InterfaceError {
                        let ie = e->InterfaceError_0;
                        if window_error(x_start, y_start, x_end, y_end, WIDTH as u16, HEIGHT as u16)
                            is None {
                            lemma_performed_refused_prefix(
                                before,
                                self.interface.history(),
                                window,
                                seq![Transfer::Pixels(region)],
                                ie,
                            );
                        }
                    }
                }
                return Err(e);
            },
        }
        let ghost mid = self.interface.history();
        let bpp = COLOR::bytes_per_pixel();
        proof {
            use_type_invariant(&self.framebuffer);
            self.framebuffer.lemma_len();
            // a valid window starts on the screen, so HEIGHT >= 1 and a screen row fits in N
            assert(HEIGHT >= 1) by {
                if HEIGHT == 0 {
                    assert(HEIGHT as u16 == 0);
                }
            }
            assert(WIDTH * bpp <= WIDTH * HEIGHT * bpp) by (nonlinear_arith)
                requires
                    HEIGHT >= 1,
            ;
            assert(cols * rows <= cols * rows * bpp) by (nonlinear_arith)
                requires
                    cols >= 1,
                    rows >= 1,
                    bpp >= 1,
            ;
            assert(cols <= cols * rows) by (nonlinear_arith)
                requires
                    cols >= 1,
                    rows >= 1,
            ;
            assert(cols * bpp <= cols * rows * bpp) by (nonlinear_arith)
                requires
                    cols >= 1,
                    rows >= 1,
                    bpp >= 1,
            ;
        }
        let fb_width = WIDTH * bpp;
        let width = (x_end - x_start + 1) as usize;
        let height = (y_end - y_start + 1) as usize;
        let mut pixel_data: Vec<u8> = Vec::with_capacity(width * height * bpp);
        let frame = self.framebuffer.as_slice();
        let mut y: usize = 0;
        while y < height
            invariant
                y <= height,
                width == cols,
                height == rows,
                cols == x_end - x_start + 1,
                rows == y_end - y_start + 1,
                x0 == x_start as int,
                y0 == y_start as int,
                sw == WIDTH as int,
                n == N as int,
                cols >= 1,
                rows >= 1,
                bpp == bppi,
                bppi == COLOR::spec_bytes_per_pixel(),
                1 <= bpp <= 3,
                fb_width == WIDTH * bpp,
                width * bpp <= isize::MAX,
                frame@ == frame0,
                frame0.len() == N,
                self.framebuffer@ == frame0,
                self.interface.history() == mid,
                self.reset == old(self).reset,
                old(self).frame() == frame0,
                window_error(x_start, y_start, x_end, y_end, WIDTH as u16, HEIGHT as u16) is None,
                performed(before, mid, window_plan(x_start, y_start, x_end, y_end), Ok(())),
                before == old(self).interface().history(),
                partial_flush_fits(x_start, x_end, y_start, y_end, sw, bppi, n),
                rows_fit(x0, y0, cols, y as int, sw, bppi, n),
                pixel_data@ == region_bytes(frame0, x0, y0, cols, y as int, sw, bppi),
            decreases height - y,
        {
            proof {
                let rs = row_start(x0, y0, y as int, sw, bppi);
                assert(0 <= y < rows);
                assert(rows_fit(x0, y0, cols, y as int, sw, bppi, n));
                assert(rs + cols * bppi <= usize::MAX);
                vstd::arithmetic::mul::lemma_mul_nonnegative(y_start + y, WIDTH * bpp);
                vstd::arithmetic::mul::lemma_mul_nonnegative(x_start as int, bpp as int);
                vstd::arithmetic::mul::lemma_mul_nonnegative(cols, bpp as int);
            }
            let offset = (y_start as usize + y) * fb_width + (x_start as usize * bpp);
            let row_end = offset + (width * bpp);
            if offset < N && row_end <= N {
                let row = vstd::slice::slice_subrange(frame, offset, row_end);
                pixel_data.extend_from_slice(row);
                proof {
                    assert(pixel_data@ =~= region_bytes(frame0, x0, y0, cols, y + 1, sw, bppi));
                    assert forall|r: int|
                        0 <= r < y + 1 implies #[trigger] row_fits(x0, y0, cols, r, sw, bppi, n) by {
                        if r < y {
                            assert(row_fits(x0, y0, cols, r, sw, bppi, n));
                        }
                    }
                }
            } else {
                proof {
                    assert(!row_fits(x0, y0, cols, y as int, sw, bppi, n));
                    assert(!rows_fit(x0, y0, cols, rows, sw, bppi, n));
                }
                return Err(DriverError::InvalidConfiguration("Framebuffer slice out of bounds"));
            }
            y = y + 1;
        }
        let r = self.send_pixels(pixel_data.as_slice());
        proof {
            let window = window_plan(x_start, y_start, x_end, y_end);
            let pixels = seq![Transfer::Pixels(pixel_data@)];
            let after = self.interface.history();
            if r is Ok {
                lemma_performed_append(before, mid, after, window, pixels, Ok(()));
            } else if r->Err_0 is InterfaceError {
                let ie = r->Err_0->InterfaceError_0;
                lemma_performed_append(before, mid, after, window, pixels, Err(ie));
            }
        }
        r
    }
}

} // verus!
