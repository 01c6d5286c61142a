pub mod itoa;
pub mod rand;
pub mod text;
pub mod sync;
pub mod ws2812;
