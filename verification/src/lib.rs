//! Driver logic for the digital-to-analog converters (DAC) of the ESP32 and the ESP32-S2.
//!
//! Each chip has two 8-bit channels that turn a value in `0..=255` into a voltage between zero
//! and the supply of the pads. A channel is driven value by value ([`dac::Dac`]); on the
//! ESP32-S2 the first one can also be fed from memory by DMA
//! ([`continuous_dma::DacContinuousTx`]).
//!
//! The drivers touch no hardware. Every operation appends [`command::Command`]s to a list, and
//! the platform carries them out in order. [`device`] says what the commands do, and the public
//! proof functions next to the drivers say what follows for the hardware.

pub mod clkdiv;
pub mod clock_plan;
pub mod command;
pub mod continuous_dma;
pub mod dac;
pub mod device;
pub mod dma;
pub mod gpio;
pub mod laws;
pub mod peripherals;
mod private;
pub mod step_laws;
pub mod system;
