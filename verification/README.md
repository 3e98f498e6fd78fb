# sh8601

Driver logic for the SH8601 AMOLED display controller, verified with Verus.

- `src/color.rs` – display size, the pixel formats (`Rgb565`, `Rgb666`, `Rgb888`, `Gray8`)
  and their framebuffer encoding (packed by `embedded-graphics-core`), `framebuffer_size`.
- `src/framebuffer.rs` – the framebuffer: either a caller's `&'static mut [u8; N]` (no
  allocation) or a heap array, and pixel writes into it.
- `src/protocol.rs` – transfers, exchanges (a transfer with the interface's answer), the
  parameter encodings (window ranges, brightness) and the initialization sequence.
- `src/driver.rs` – the user-implemented `ControllerInterface` and `ResetInterface` traits,
  whose contracts say that each call appends its transfer and answer to the interface's
  `history`, and `Sh8601Driver`: reset, initialization steps, sleep, display on/off, window
  selection, brightness, drawing, full and partial flush, and `startup_step` (reset, then
  the initialization sequence). Each operation's contract is
  stated over the interface's history: which transfers reach it in which order, and what
  the operation answers for each answer of the interface.
- `src/laws.rs` – properties over several operations (pixel read-back and independence,
  a whole-screen partial flush sends what a flush sends, startup resets once before any
  interface call and then sends the initialization script, histories only grow).
- `app/lib.rs` – what needs `embedded-hal` delays or `embedded-graphics` traits:
  `new_heap`, `new_static`, `initialize_display`, `sleep_in`/`sleep_out` with waits, and a
  `DrawTarget` wrapper.

The framebuffer is the library's own type rather than `embedded-graphics`'
`framebuffer::Framebuffer`. That type is generic over the screen size and pixel format,
and a name for the contents of an outside collection cannot be generic, so its contents
could not be stated behind trusted items. Keeping a ghost copy of the contents beside an
opaque `embedded-graphics` framebuffer does not work either: `as_mut_slice` hands out a
mutable reference to the bytes, and writes made through it would leave such a copy stale
without anything noticing. The library's framebuffer keeps the same byte layout (row after
row, little-endian pixels) and, like the original's static variant, can work on a caller's
static buffer without allocating; `new_static` hands it the `embedded-graphics`
framebuffer's own bytes.
