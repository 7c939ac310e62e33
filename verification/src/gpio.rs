//! Pins that can carry an analog signal.
use crate::command::Command;
use crate::private::Sealed;
use vstd::prelude::*;

verus! {

/// A pin that can carry an analog signal.
pub trait AnalogPin: Sealed {
    /// The number of the pin.
    const GPIO: u8;

    /// The number of the pin.
    spec fn gpio() -> u8;

    /// The constant is the number of the pin.
    proof fn gpio_is_constant()
        ensures
            Self::GPIO == Self::gpio(),
    ;

    /// Takes the pin away from the digital functions.
    fn set_analog(&self, commands: &mut Vec<Command>)
        ensures
            final(commands)@ == old(commands)@.push(Command::SetAnalog { gpio: Self::gpio() }),
    {
        proof {
            Self::gpio_is_constant();
        }
        commands.push(Command::SetAnalog { gpio: Self::GPIO });
    }
}

} // verus!
