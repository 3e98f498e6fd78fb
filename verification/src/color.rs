use vstd::prelude::*;

verus! {

/// Configuration for the display dimensions.
#[derive(Debug, Clone, Copy)]
pub struct DisplaySize {
    /// Display width in pixels.
    pub width: u16,
    /// Display height in pixels.
    pub height: u16,
}

impl DisplaySize {
    /// Creates a display size from a width and a height in pixels.
    pub fn new(width: u16, height: u16) -> (size: Self)
        ensures
            size.width == width,
            size.height == height,
    {
        DisplaySize { width, height }
    }
}

/// The bytes of `value` in little-endian order, `n` of them (higher bytes are dropped).
pub open spec fn le_bytes(value: nat, n: nat) -> Seq<u8>
    decreases n,
{
    if n == 0 {
        Seq::empty()
    } else {
        seq![(value % 256) as u8] + le_bytes(value / 256, (n - 1) as nat)
    }
}

/// A pixel format that the SH8601 can be configured for.
///
/// `bytes_per_pixel` is the size of one pixel in the framebuffer, `command_parameter`
/// is the COLMOD argument that selects the format, and `to_le_bytes` gives the bytes
/// that a pixel of this color occupies in the framebuffer.
pub trait SH8601ColorMode: Sized {
    /// Number of framebuffer bytes per pixel.
    spec fn spec_bytes_per_pixel() -> nat;

    /// Parameter of the COLMOD command for this format.
    spec fn spec_command_parameter() -> u8;

    /// The raw storage value of a color.
    spec fn spec_storage(&self) -> nat;

    fn bytes_per_pixel() -> (n: usize)
        ensures
            n == Self::spec_bytes_per_pixel(),
            1 <= n <= 3,
    ;

    fn command_parameter() -> (p: u8)
        ensures
            p == Self::spec_command_parameter(),
    ;

    fn to_le_bytes(&self) -> (bytes: Vec<u8>)
        ensures
            bytes@ == le_bytes(self.spec_storage(), Self::spec_bytes_per_pixel()),
    ;
}

/// Raw value of a 16 bit RGB color with 5, 6 and 5 bits for red, green and blue.
pub open spec fn rgb565_storage(r: u8, g: u8, b: u8) -> nat {
    ((r % 32) * 2048 + (g % 64) * 32 + b % 32) as nat
}

/// Raw value of a 18 bit RGB color stored in 24 bits, 6 bits per channel.
pub open spec fn rgb666_storage(r: u8, g: u8, b: u8) -> nat {
    ((r % 64) * 4096 + (g % 64) * 64 + b % 64) as nat
}

/// Raw value of a 24 bit RGB color, 8 bits per channel.
pub open spec fn rgb888_storage(r: u8, g: u8, b: u8) -> nat {
    (r * 65536 + g * 256 + b) as nat
}

/// Calls `embedded_graphics_core::pixelcolor::Rgb565::new` and `ToBytes::to_le_bytes`:
/// the channels are masked to 5, 6 and 5 bits, packed red high, and written as two
/// little-endian bytes.
#[verifier::external_body]
fn rgb565_le_bytes(r: u8, g: u8, b: u8) -> (bytes: Vec<u8>)
    ensures
        bytes@ == le_bytes(rgb565_storage(r, g, b), 2),
{
    let color = embedded_graphics_core::pixelcolor::Rgb565::new(r, g, b);
    embedded_graphics_core::pixelcolor::raw::ToBytes::to_le_bytes(color).to_vec()
}

/// Calls `embedded_graphics_core::pixelcolor::Rgb666::new` and `ToBytes::to_le_bytes`:
/// the channels are masked to 6 bits, packed red high into 24 bits, and written as three
/// little-endian bytes.
#[verifier::external_body]
fn rgb666_le_bytes(r: u8, g: u8, b: u8) -> (bytes: Vec<u8>)
    ensures
        bytes@ == le_bytes(rgb666_storage(r, g, b), 3),
{
    let color = embedded_graphics_core::pixelcolor::Rgb666::new(r, g, b);
    embedded_graphics_core::pixelcolor::raw::ToBytes::to_le_bytes(color).to_vec()
}

/// Calls `embedded_graphics_core::pixelcolor::Rgb888::new` and `ToBytes::to_le_bytes`:
/// the channels are packed red high into 24 bits and written as three little-endian bytes.
#[verifier::external_body]
fn rgb888_le_bytes(r: u8, g: u8, b: u8) -> (bytes: Vec<u8>)
    ensures
        bytes@ == le_bytes(rgb888_storage(r, g, b), 3),
{
    let color = embedded_graphics_core::pixelcolor::Rgb888::new(r, g, b);
    embedded_graphics_core::pixelcolor::raw::ToBytes::to_le_bytes(color).to_vec()
}

/// Calls `embedded_graphics_core::pixelcolor::Gray8::new` and `ToBytes::to_le_bytes`:
/// the single byte is the luma value.
#[verifier::external_body]
fn gray8_le_bytes(luma: u8) -> (bytes: Vec<u8>)
    ensures
        bytes@ == le_bytes(luma as nat, 1),
{
    let color = embedded_graphics_core::pixelcolor::Gray8::new(luma);
    embedded_graphics_core::pixelcolor::raw::ToBytes::to_le_bytes(color).to_vec()
}

/// 16 bit RGB color (COLMOD 0x55).
#[derive(Debug, Clone, Copy)]
pub struct Rgb565 {
    pub r: u8,
    pub g: u8,
    pub b: u8,
}

/// 18 bit RGB color, stored in three bytes (COLMOD 0x66).
#[derive(Debug, Clone, Copy)]
pub struct Rgb666 {
    pub r: u8,
    pub g: u8,
    pub b: u8,
}

/// 24 bit RGB color (COLMOD 0x77).
#[derive(Debug, Clone, Copy)]
pub struct Rgb888 {
    pub r: u8,
    pub g: u8,
    pub b: u8,
}

/// 8 bit grayscale color (COLMOD 0x11).
#[derive(Debug, Clone, Copy)]
pub struct Gray8 {
    pub luma: u8,
}

impl Rgb565 {
    pub fn new(r: u8, g: u8, b: u8) -> (c: Self)
        ensures
            c.r == r && c.g == g && c.b == b,
    {
        Rgb565 { r, g, b }
    }
}

impl Rgb666 {
    pub fn new(r: u8, g: u8, b: u8) -> (c: Self)
        ensures
            c.r == r && c.g == g && c.b == b,
    {
        Rgb666 { r, g, b }
    }
}

impl Rgb888 {
    pub fn new(r: u8, g: u8, b: u8) -> (c: Self)
        ensures
            c.r == r && c.g == g && c.b == b,
    {
        Rgb888 { r, g, b }
    }
}

impl Gray8 {
    pub fn new(luma: u8) -> (c: Self)
        ensures
            c.luma == luma,
    {
        Gray8 { luma }
    }
}

impl SH8601ColorMode for Rgb565 {
    open spec fn spec_bytes_per_pixel() -> nat {
        2
    }

    open spec fn spec_command_parameter() -> u8 {
        0x55
    }

    open spec fn spec_storage(&self) -> nat {
        rgb565_storage(self.r, self.g, self.b)
    }

    fn bytes_per_pixel() -> (n: usize) {
        2
    }

    fn command_parameter() -> (p: u8) {
        0x55
    }

    fn to_le_bytes(&self) -> (bytes: Vec<u8>) {
        rgb565_le_bytes(self.r, self.g, self.b)
    }
}

impl SH8601ColorMode for Rgb888 {
    open spec fn spec_bytes_per_pixel() -> nat {
        3
    }

    open spec fn spec_command_parameter() -> u8 {
        0x77
    }

    open spec fn spec_storage(&self) -> nat {
        rgb888_storage(self.r, self.g, self.b)
    }

    fn bytes_per_pixel() -> (n: usize) {
        3
    }

    fn command_parameter() -> (p: u8) {
        0x77
    }

    fn to_le_bytes(&self) -> (bytes: Vec<u8>) {
        rgb888_le_bytes(self.r, self.g, self.b)
    }
}

impl SH8601ColorMode for Rgb666 {
    open spec fn spec_bytes_per_pixel() -> nat {
        3
    }

    open spec fn spec_command_parameter() -> u8 {
        0x66
    }

    open spec fn spec_storage(&self) -> nat {
        rgb666_storage(self.r, self.g, self.b)
    }

    fn bytes_per_pixel() -> (n: usize) {
        3
    }

    fn command_parameter() -> (p: u8) {
        0x66
    }

    fn to_le_bytes(&self) -> (bytes: Vec<u8>) {
        rgb666_le_bytes(self.r, self.g, self.b)
    }
}

impl SH8601ColorMode for Gray8 {
    open spec fn spec_bytes_per_pixel() -> nat {
        1
    }

    open spec fn spec_command_parameter() -> u8 {
        0x11
    }

    open spec fn spec_storage(&self) -> nat {
        self.luma as nat
    }

    fn bytes_per_pixel() -> (n: usize) {
        1
    }

    fn command_parameter() -> (p: u8) {
        0x11
    }

    fn to_le_bytes(&self) -> (bytes: Vec<u8>) {
        gray8_le_bytes(self.luma)
    }
}

/// Computes the framebuffer size (in bytes) for a given display and color mode:
/// width times height times the bytes per pixel of `C`.
pub fn framebuffer_size<C: SH8601ColorMode>(display: DisplaySize) -> (size: usize)
    requires
        display.width * display.height * C::spec_bytes_per_pixel() <= usize::MAX,
    ensures
        size == display.width * display.height * C::spec_bytes_per_pixel(),
{
    let bpp = C::bytes_per_pixel();
    proof {
        vstd::arithmetic::mul::lemma_mul_nonnegative(display.width as int, display.height as int);
        assert(display.width * display.height <= display.width * display.height * bpp)
            by (nonlinear_arith)
            requires
                bpp >= 1,
        ;
    }
    (display.width as usize) * (display.height as usize) * bpp
}

} // verus!
