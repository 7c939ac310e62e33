//! Chips, driver modes and the clocks of peripherals.
use crate::command::Command;
use crate::private::Sealed;
use vstd::prelude::*;

verus! {

/// The chips that have a DAC.
#[derive(Debug, Clone, Copy, PartialEq, Eq, Structural)]
pub enum Chip {
    /// The ESP32.
    Esp32,
    /// The ESP32-S2.
    Esp32s2,
}

/// Peripherals whose clock can be switched.
#[derive(Debug, Clone, Copy, PartialEq, Eq, Structural)]
pub enum Peripheral {
    /// The SPI3 controller.
    Spi3,
}

/// How a driver waits for the hardware.
pub trait DriverMode: Sealed {

}

/// The driver polls the hardware.
pub struct Blocking;

/// The driver is woken by interrupts.
pub struct Async;

impl Sealed for Blocking {

}

impl DriverMode for Blocking {

}

impl Sealed for Async {

}

impl DriverMode for Async {

}

/// A claim on the clock of a peripheral. The clock runs while there is a claim.
pub struct PeripheralGuard {
    peripheral: Peripheral,
}

impl PeripheralGuard {
    /// The peripheral whose clock is claimed.
    pub closed spec fn peripheral(&self) -> Peripheral {
        self.peripheral
    }

    /// Claims the clock of `peripheral`.
    pub fn new(peripheral: Peripheral, commands: &mut Vec<Command>) -> (guard: Self)
        ensures
            guard.peripheral() == peripheral,
            final(commands)@ == old(commands)@.push(Command::AcquirePeripheral(peripheral)),
    {
        commands.push(Command::AcquirePeripheral(peripheral));
        PeripheralGuard { peripheral }
    }

    /// Gives the claim up.
    pub fn release(self, commands: &mut Vec<Command>)
        ensures
            final(commands)@ == old(commands)@.push(Command::ReleasePeripheral(self.peripheral())),
    {
        commands.push(Command::ReleasePeripheral(self.peripheral));
    }
}

} // verus!
