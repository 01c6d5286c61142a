//! Logic of the Card25 badge firmware: framebuffer, button debouncing,
//! LED colour handling, text scrolling, animations and games.
pub mod time;
pub mod util;
pub mod drivers;
pub mod apps;

