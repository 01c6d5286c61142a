pub mod flash;
pub mod timer;
pub mod usb;
pub mod ws2812;

pub use timer::{buttons, matrix};
