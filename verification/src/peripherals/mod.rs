//! Tokens for the peripherals and pins that the drivers use. Who holds a token may use the
//! hardware that it stands for; the platform makes each token once.
pub mod esp32;
pub mod esp32s2;
