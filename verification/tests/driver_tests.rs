use std::cell::RefCell;
use std::rc::Rc;

use sh8601::commands;
use sh8601::protocol::Exchange;
use sh8601::{
    framebuffer_size, ControllerInterface, DisplaySize, DriverError, Framebuffer, Gray8,
    InitProgress, ResetInterface, Rgb565, Rgb666, Rgb888, SH8601ColorMode, Sh8601Driver,
    SLEEP_SETTLE_MS,
};

#[derive(Debug, Clone, PartialEq, Eq)]
enum Call {
    Reset,
    Command(u8),
    CommandWithData(u8, Vec<u8>),
    Pixels(Vec<u8>),
}

/// Records every call; refuses the call with index `fail_at`, if set.
#[derive(Clone)]
struct Mock {
    calls: Rc<RefCell<Vec<Call>>>,
    fail_at: Option<usize>,
}

impl Mock {
    fn new() -> Self {
        Mock { calls: Rc::new(RefCell::new(Vec::new())), fail_at: None }
    }

    fn failing_at(n: usize) -> Self {
        Mock { calls: Rc::new(RefCell::new(Vec::new())), fail_at: Some(n) }
    }

    fn record(&mut self, call: Call) -> Result<(), &'static str> {
        let mut calls = self.calls.borrow_mut();
        let index = calls.len();
        calls.push(call);
        if self.fail_at == Some(index) {
            Err("refused")
        } else {
            Ok(())
        }
    }

    fn calls(&self) -> Vec<Call> {
        self.calls.borrow().clone()
    }
}

impl ControllerInterface for Mock {
    type Error = &'static str;

    fn history(&self) -> vstd::seq::Seq<Exchange<&'static str>> {
        panic!("specification only")
    }

    fn send_command(&mut self, cmd: u8) -> Result<(), Self::Error> {
        self.record(Call::Command(cmd))
    }

    fn send_command_with_data(&mut self, cmd: u8, data: &[u8]) -> Result<(), Self::Error> {
        self.record(Call::CommandWithData(cmd, data.to_vec()))
    }

    fn send_pixels(&mut self, pixels: &[u8]) -> Result<(), Self::Error> {
        self.record(Call::Pixels(pixels.to_vec()))
    }
}

impl ResetInterface for Mock {
    type Error = &'static str;

    fn history(&self) -> vstd::seq::Seq<Result<(), &'static str>> {
        panic!("specification only")
    }

    fn reset(&mut self) -> Result<(), Self::Error> {
        self.record(Call::Reset)
    }
}

type Small = Sh8601Driver<Mock, Mock, Rgb565, 2, 2, 8>;

fn small(iface: Mock, rst: Mock) -> Small {
    Sh8601Driver::new(iface, rst, Framebuffer::new())
}

#[test]
fn display_size_new_keeps_dimensions() {
    let size = DisplaySize::new(368, 448);
    assert_eq!(size.width, 368);
    assert_eq!(size.height, 448);
}

#[test]
fn framebuffer_size_per_color_mode() {
    let size = DisplaySize::new(368, 448);
    assert_eq!(framebuffer_size::<Rgb565>(size), 368 * 448 * 2);
    assert_eq!(framebuffer_size::<Rgb888>(size), 368 * 448 * 3);
    assert_eq!(framebuffer_size::<Rgb666>(size), 368 * 448 * 3);
    assert_eq!(framebuffer_size::<Gray8>(size), 368 * 448);
}

#[test]
fn color_mode_parameters() {
    assert_eq!(Rgb565::command_parameter(), 0x55);
    assert_eq!(Rgb888::command_parameter(), 0x77);
    assert_eq!(Rgb666::command_parameter(), 0x66);
    assert_eq!(Gray8::command_parameter(), 0x11);
    assert_eq!(Rgb565::bytes_per_pixel(), 2);
    assert_eq!(Rgb888::bytes_per_pixel(), 3);
    assert_eq!(Rgb666::bytes_per_pixel(), 3);
    assert_eq!(Gray8::bytes_per_pixel(), 1);
}

#[test]
fn color_bytes_are_little_endian_storage() {
    assert_eq!(Rgb565::new(0xFF, 0, 0).to_le_bytes(), vec![0x00, 0xF8]);
    assert_eq!(Rgb565::new(0, 0xFF, 0).to_le_bytes(), vec![0xE0, 0x07]);
    assert_eq!(Rgb565::new(0, 0, 0xFF).to_le_bytes(), vec![0x1F, 0x00]);
    assert_eq!(Rgb888::new(1, 2, 3).to_le_bytes(), vec![3, 2, 1]);
    assert_eq!(Rgb666::new(0x3F, 0, 0).to_le_bytes(), vec![0x00, 0xF0, 0x03]);
    assert_eq!(Rgb666::new(0, 0, 0xFF).to_le_bytes(), vec![0x3F, 0x00, 0x00]);
    assert_eq!(Gray8::new(0x7E).to_le_bytes(), vec![0x7E]);
}

#[test]
fn framebuffer_new_is_zeroed() {
    let fb = Framebuffer::<Rgb565, 2, 2, 8>::new();
    assert_eq!(fb.as_slice(), &[0u8; 8][..]);
}

#[test]
fn framebuffer_has_room_checks_size() {
    assert!(Framebuffer::<Rgb565, 2, 2, 8>::has_room());
    assert!(Framebuffer::<Rgb565, 2, 2, 9>::has_room());
    // 8 bytes cannot hold a 3x2 screen of two-byte pixels
    assert!(!Framebuffer::<Rgb565, 3, 2, 8>::has_room());
    assert!(!Framebuffer::<Rgb888, 2, 2, 11>::has_room());
}

#[test]
fn framebuffer_from_static_uses_caller_buffer() {
    let buffer: &'static mut [u8; 5] = Box::leak(Box::new([1, 2, 3, 4, 5]));
    let mut fb = Framebuffer::<Gray8, 2, 2, 5>::from_static(buffer);
    assert_eq!(fb.as_slice(), &[1, 2, 3, 4, 5][..]);
    fb.set_pixel(1, 1, Gray8::new(9));
    assert_eq!(fb.as_slice(), &[1, 2, 3, 9, 5][..]);
}

#[test]
fn framebuffer_set_pixel_writes_little_endian_bytes() {
    let mut fb = Framebuffer::<Rgb565, 2, 2, 8>::new();
    fb.set_pixel(1, 1, Rgb565::new(0xFF, 0, 0));
    assert_eq!(fb.as_slice(), &[0, 0, 0, 0, 0, 0, 0x00, 0xF8][..]);
    fb.set_pixel(1, 0, Rgb565::new(0, 0, 0xFF));
    assert_eq!(fb.as_slice(), &[0, 0, 0x1F, 0x00, 0, 0, 0x00, 0xF8][..]);
}

#[test]
fn framebuffer_set_pixel_off_screen_is_ignored() {
    let mut fb = Framebuffer::<Gray8, 2, 2, 4>::new();
    fb.set_pixel(-1, 0, Gray8::new(9));
    fb.set_pixel(0, -1, Gray8::new(9));
    fb.set_pixel(2, 0, Gray8::new(9));
    fb.set_pixel(0, 2, Gray8::new(9));
    assert_eq!(fb.as_slice(), &[0, 0, 0, 0][..]);
}

#[test]
fn framebuffer_as_mut_slice_writes_through() {
    let mut fb = Framebuffer::<Gray8, 2, 2, 4>::new();
    fb.as_mut_slice()[3] = 7;
    assert_eq!(fb.as_slice(), &[0, 0, 0, 7][..]);
}

#[test]
fn hard_reset_uses_reset_interface() {
    let iface = Mock::new();
    let rst = Mock::new();
    let mut d = small(iface.clone(), rst.clone());
    assert!(d.hard_reset().is_ok());
    assert_eq!(rst.calls(), vec![Call::Reset]);
    assert!(iface.calls().is_empty());
}

#[test]
fn hard_reset_error_is_reset_error() {
    let mut d = small(Mock::new(), Mock::failing_at(0));
    assert!(matches!(d.hard_reset(), Err(DriverError::ResetError("refused"))));
}

#[test]
fn initialization_sequence() {
    let iface = Mock::new();
    let mut d = small(iface.clone(), Mock::new());
    let mut delays = Vec::new();
    let mut step = 0;
    loop {
        match d.initialize_display_step(step).unwrap() {
            InitProgress::Sent => {}
            InitProgress::Delay(ms) => delays.push(ms),
            InitProgress::Done => break,
        }
        step += 1;
    }
    assert_eq!(step, 13);
    assert_eq!(delays, vec![10, 120, 5, 120, 10]);
    assert_eq!(
        iface.calls(),
        vec![
            Call::Command(commands::SWRESET),
            Call::Command(commands::SLPOUT),
            Call::CommandWithData(commands::COLMOD, vec![0x55]),
            Call::CommandWithData(commands::MADCTL, vec![0x00]),
            Call::CommandWithData(commands::TESCAN, vec![0x01, 0xC5]),
            Call::CommandWithData(commands::TEON, vec![0x00]),
            Call::Command(commands::DISPON),
            Call::CommandWithData(commands::PTLAR, vec![0x00, 0x80, 0x00, 0x02]),
        ]
    );
    assert_eq!(d.initialize_display_step(100).unwrap(), InitProgress::Done);
}

#[test]
fn startup_resets_first_then_initializes() {
    let iface = Mock::new();
    let rst = Mock::new();
    let mut d = small(iface.clone(), rst.clone());
    assert_eq!(d.startup_step(0).unwrap(), InitProgress::Sent);
    assert_eq!(rst.calls(), vec![Call::Reset]);
    assert!(iface.calls().is_empty());
    let mut step = 1;
    let mut delays = Vec::new();
    loop {
        match d.startup_step(step).unwrap() {
            InitProgress::Sent => {}
            InitProgress::Delay(ms) => delays.push(ms),
            InitProgress::Done => break,
        }
        step += 1;
    }
    assert_eq!(step, 14);
    assert_eq!(delays, vec![10, 120, 5, 120, 10]);
    assert_eq!(rst.calls(), vec![Call::Reset]);
    assert_eq!(iface.calls().len(), 8);
    assert_eq!(iface.calls()[0], Call::Command(commands::SWRESET));
}

#[test]
fn startup_reset_error_is_reset_error() {
    let iface = Mock::new();
    let mut d = small(iface.clone(), Mock::failing_at(0));
    assert!(matches!(d.startup_step(0), Err(DriverError::ResetError("refused"))));
    assert!(iface.calls().is_empty());
}

#[test]
fn initialization_uses_color_mode_parameter() {
    let iface = Mock::new();
    let mut d: Sh8601Driver<Mock, Mock, Gray8, 2, 2, 4> =
        Sh8601Driver::new(iface.clone(), Mock::new(), Framebuffer::new());
    assert_eq!(d.initialize_display_step(4).unwrap(), InitProgress::Sent);
    assert_eq!(iface.calls(), vec![Call::CommandWithData(commands::COLMOD, vec![0x11])]);
}

#[test]
fn initialization_step_error_is_interface_error() {
    let mut d = small(Mock::failing_at(0), Mock::new());
    assert!(matches!(
        d.initialize_display_step(0),
        Err(DriverError::InterfaceError("refused"))
    ));
}

#[test]
fn sleep_in_and_out() {
    let iface = Mock::new();
    let mut d = small(iface.clone(), Mock::new());
    assert_eq!(d.sleep_in().unwrap(), SLEEP_SETTLE_MS);
    assert_eq!(d.sleep_out().unwrap(), 5);
    assert_eq!(
        iface.calls(),
        vec![Call::Command(commands::SLPIN), Call::Command(commands::SLPOUT)]
    );
}

#[test]
fn display_on_off_and_madctl() {
    let iface = Mock::new();
    let mut d = small(iface.clone(), Mock::new());
    d.display_off().unwrap();
    d.display_on().unwrap();
    d.set_madctl(0xA0).unwrap();
    assert_eq!(
        iface.calls(),
        vec![
            Call::Command(commands::DISPOFF),
            Call::Command(commands::DISPON),
            Call::CommandWithData(commands::MADCTL, vec![0xA0]),
        ]
    );
}

#[test]
fn set_brightness_encodes_and_clamps() {
    let iface = Mock::new();
    let mut d = small(iface.clone(), Mock::new());
    d.set_brightness(0x1AB).unwrap();
    d.set_brightness(0x3FF).unwrap();
    d.set_brightness(0xFFFF).unwrap();
    d.set_brightness(0).unwrap();
    assert_eq!(
        iface.calls(),
        vec![
            Call::CommandWithData(commands::WRDISBV, vec![0xAB, 0x01]),
            Call::CommandWithData(commands::WRDISBV, vec![0xFF, 0x03]),
            Call::CommandWithData(commands::WRDISBV, vec![0xFF, 0x03]),
            Call::CommandWithData(commands::WRDISBV, vec![0x00, 0x00]),
        ]
    );
}

#[test]
fn set_window_sends_big_endian_ranges() {
    let iface = Mock::new();
    let mut d: Sh8601Driver<Mock, Mock, Rgb565, 368, 448, { 368 * 448 * 2 }> =
        Sh8601Driver::new(iface.clone(), Mock::new(), Framebuffer::new());
    d.set_window(0x0102, 0x0003, 0x016F, 0x01BF).unwrap();
    assert_eq!(
        iface.calls(),
        vec![
            Call::CommandWithData(commands::CASET, vec![0x01, 0x02, 0x01, 0x6F]),
            Call::CommandWithData(commands::PASET, vec![0x00, 0x03, 0x01, 0xBF]),
        ]
    );
}

#[test]
fn set_window_rejects_zero_end() {
    let iface = Mock::new();
    let mut d = small(iface.clone(), Mock::new());
    assert!(matches!(
        d.set_window(0, 0, 0, 1),
        Err(DriverError::InvalidConfiguration("Window width/height cannot be zero"))
    ));
    assert!(matches!(
        d.set_window(0, 0, 1, 0),
        Err(DriverError::InvalidConfiguration("Window width/height cannot be zero"))
    ));
    assert!(iface.calls().is_empty());
}

#[test]
fn set_window_rejects_start_off_screen() {
    let iface = Mock::new();
    let mut d = small(iface.clone(), Mock::new());
    assert!(matches!(
        d.set_window(2, 0, 3, 1),
        Err(DriverError::InvalidConfiguration("Window start coordinates out of bounds"))
    ));
    assert!(matches!(
        d.set_window(0, 2, 1, 3),
        Err(DriverError::InvalidConfiguration("Window start coordinates out of bounds"))
    ));
    assert!(iface.calls().is_empty());
}

#[test]
fn set_window_rejects_end_before_start() {
    let iface = Mock::new();
    let mut d: Sh8601Driver<Mock, Mock, Gray8, 8, 8, 64> =
        Sh8601Driver::new(iface.clone(), Mock::new(), Framebuffer::new());
    assert!(matches!(
        d.set_window(5, 0, 4, 7),
        Err(DriverError::InvalidConfiguration("Invalid window dimensions (end < start)"))
    ));
    assert!(iface.calls().is_empty());
}

#[test]
fn set_window_stops_after_refused_transfer() {
    let iface = Mock::failing_at(0);
    let mut d = small(iface.clone(), Mock::new());
    assert!(matches!(d.set_window(0, 0, 1, 1), Err(DriverError::InterfaceError("refused"))));
    assert_eq!(iface.calls().len(), 1);
}

#[test]
fn set_window_second_refusal_returns_interface_error() {
    let iface = Mock::failing_at(1);
    let mut d = small(iface.clone(), Mock::new());
    assert!(matches!(d.set_window(0, 0, 1, 1), Err(DriverError::InterfaceError("refused"))));
    assert_eq!(
        iface.calls(),
        vec![
            Call::CommandWithData(commands::CASET, vec![0, 0, 0, 1]),
            Call::CommandWithData(commands::PASET, vec![0, 0, 0, 1]),
        ]
    );
}

#[test]
fn flush_sends_full_window_then_framebuffer() {
    let iface = Mock::new();
    let mut d = small(iface.clone(), Mock::new());
    d.draw_pixel(0, 1, Rgb565::new(0, 0xFF, 0));
    d.flush().unwrap();
    assert_eq!(
        iface.calls(),
        vec![
            Call::CommandWithData(commands::CASET, vec![0, 0, 0, 1]),
            Call::CommandWithData(commands::PASET, vec![0, 0, 0, 1]),
            Call::Pixels(vec![0, 0, 0, 0, 0xE0, 0x07, 0, 0]),
        ]
    );
}

#[test]
fn flush_of_single_column_screen_writes_framebuffer() {
    let iface = Mock::new();
    let mut d: Sh8601Driver<Mock, Mock, Gray8, 1, 4, 4> =
        Sh8601Driver::new(iface.clone(), Mock::new(), Framebuffer::new());
    d.draw_pixel(0, 2, Gray8::new(7));
    d.flush().unwrap();
    assert_eq!(
        iface.calls(),
        vec![
            Call::CommandWithData(commands::CASET, vec![0, 0, 0, 0]),
            Call::CommandWithData(commands::PASET, vec![0, 0, 0, 3]),
            Call::Pixels(vec![0, 0, 7, 0]),
        ]
    );
}

#[test]
fn flush_of_single_row_screen_writes_framebuffer() {
    let iface = Mock::new();
    let mut d: Sh8601Driver<Mock, Mock, Gray8, 3, 1, 3> =
        Sh8601Driver::new(iface.clone(), Mock::new(), Framebuffer::new());
    d.flush().unwrap();
    assert_eq!(
        iface.calls(),
        vec![
            Call::CommandWithData(commands::CASET, vec![0, 0, 0, 2]),
            Call::CommandWithData(commands::PASET, vec![0, 0, 0, 0]),
            Call::Pixels(vec![0, 0, 0]),
        ]
    );
}

#[test]
fn flush_pixel_error_is_interface_error() {
    let iface = Mock::failing_at(2);
    let mut d = small(iface.clone(), Mock::new());
    assert!(matches!(d.flush(), Err(DriverError::InterfaceError("refused"))));
    assert_eq!(iface.calls().len(), 3);
}

#[test]
fn partial_flush_gathers_window_rows() {
    let iface = Mock::new();
    let mut d: Sh8601Driver<Mock, Mock, Gray8, 4, 3, 12> =
        Sh8601Driver::new(iface.clone(), Mock::new(), Framebuffer::new());
    for y in 0..3 {
        for x in 0..4 {
            d.draw_pixel(x, y, Gray8::new((y * 4 + x) as u8));
        }
    }
    d.partial_flush(1, 2, 1, 2).unwrap();
    assert_eq!(
        iface.calls(),
        vec![
            Call::CommandWithData(commands::CASET, vec![0, 1, 0, 2]),
            Call::CommandWithData(commands::PASET, vec![0, 1, 0, 2]),
            Call::Pixels(vec![5, 6, 9, 10]),
        ]
    );
}

#[test]
fn partial_flush_of_whole_screen_equals_flush() {
    let a = Mock::new();
    let b = Mock::new();
    let mut d1 = small(a.clone(), Mock::new());
    let mut d2 = small(b.clone(), Mock::new());
    for d in [&mut d1, &mut d2] {
        d.draw_pixel(0, 0, Rgb565::new(1, 2, 3));
        d.draw_pixel(1, 1, Rgb565::new(31, 63, 31));
    }
    d1.flush().unwrap();
    d2.partial_flush(0, 1, 0, 1).unwrap();
    assert_eq!(a.calls(), b.calls());
}

#[test]
fn partial_flush_rows_beyond_framebuffer_fail_after_window() {
    let iface = Mock::new();
    let mut d = small(iface.clone(), Mock::new());
    assert!(matches!(
        d.partial_flush(0, 1, 1, 2),
        Err(DriverError::InvalidConfiguration("Framebuffer slice out of bounds"))
    ));
    assert_eq!(
        iface.calls(),
        vec![
            Call::CommandWithData(commands::CASET, vec![0, 0, 0, 1]),
            Call::CommandWithData(commands::PASET, vec![0, 1, 0, 2]),
        ]
    );
}

#[test]
fn partial_flush_rejects_invalid_window() {
    let iface = Mock::new();
    let mut d = small(iface.clone(), Mock::new());
    assert!(matches!(
        d.partial_flush(1, 0, 0, 1),
        Err(DriverError::InvalidConfiguration("Window width/height cannot be zero"))
    ));
    assert!(iface.calls().is_empty());
}

#[test]
fn draw_pixel_leaves_other_pixels() {
    let iface = Mock::new();
    let mut d: Sh8601Driver<Mock, Mock, Rgb888, 2, 2, 12> =
        Sh8601Driver::new(iface.clone(), Mock::new(), Framebuffer::new());
    d.draw_pixel(1, 0, Rgb888::new(1, 2, 3));
    d.draw_pixel(0, 1, Rgb888::new(4, 5, 6));
    d.draw_pixel(5, 5, Rgb888::new(7, 7, 7));
    d.flush().unwrap();
    assert_eq!(
        iface.calls()[2],
        Call::Pixels(vec![0, 0, 0, 3, 2, 1, 6, 5, 4, 0, 0, 0])
    );
}
