//! Verified driver logic for the SH8601 AMOLED display controller.
pub mod behaviour;
pub mod color;
pub mod commands;
pub mod driver;
pub mod framebuffer;
pub mod laws;
pub mod protocol;

pub use color::{framebuffer_size, DisplaySize, Gray8, Rgb565, Rgb666, Rgb888, SH8601ColorMode};
pub use driver::{
    ControllerInterface, DriverError, InitProgress, ResetInterface, Sh8601Driver, SLEEP_SETTLE_MS,
};
pub use framebuffer::Framebuffer;
