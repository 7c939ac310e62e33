//! One DAC channel, driven value by value.
use crate::command::Command;
use crate::gpio::AnalogPin;
use crate::private::Sealed;
use crate::system::Chip;
use core::marker::PhantomData;
use vstd::prelude::*;

verus! {

/// A DAC channel of a chip.
pub trait Instance: Sealed {
    /// Index of the channel.
    const INDEX: usize;

    /// The pin that the channel puts its voltage on.
    type Pin;

    /// Index of the channel.
    spec fn index() -> usize;

    /// The chip that the channel belongs to.
    spec fn on_chip() -> Chip;

    /// The constant is the index; every chip has two channels.
    proof fn index_is_constant()
        ensures
            Self::INDEX == Self::index() < 2,
    ;

    /// The chip that the channel belongs to.
    fn chip() -> (chip: Chip)
        ensures
            chip == Self::on_chip(),
    ;

    /// Powers the channel up, whatever the state machine of the ADC asks for.
    fn enable_xpd(commands: &mut Vec<Command>)
        ensures
            final(commands)@ == old(commands)@.push(Command::PowerPad { index: Self::index() }),
    {
        proof {
            Self::index_is_constant();
        }
        commands.push(Command::PowerPad { index: Self::INDEX });
    }

    /// Takes the value to convert from the pad register, not from the cosine generator.
    fn set_pad_source(commands: &mut Vec<Command>)
        ensures
            final(commands)@ == old(commands)@.push(Command::ClearCosine { index: Self::index() }),
    {
        proof {
            Self::index_is_constant();
        }
        commands.push(Command::ClearCosine { index: Self::INDEX });
    }

    /// Puts `value` into the pad register.
    fn write_byte(value: u8, commands: &mut Vec<Command>)
        ensures
            final(commands)@ == old(commands)@.push(
                Command::WritePad { index: Self::index(), value },
            ),
    {
        proof {
            Self::index_is_constant();
        }
        commands.push(Command::WritePad { index: Self::INDEX, value });
    }
}

/// Digital-to-analog converter (DAC) channel.
pub struct Dac<'d, T> where T: Instance + 'd, T::Pin: AnalogPin + 'd {
    _inner: T,
    _lifetime: PhantomData<&'d mut ()>,
}

/// Sets up channel `index` of `chip` with its pin `gpio`.
pub open spec fn setup_commands(chip: Chip, index: usize, gpio: u8) -> Seq<Command> {
    match chip {
        Chip::Esp32 => seq![Command::SetAnalog { gpio }, Command::PowerPad { index }],
        Chip::Esp32s2 => seq![
            Command::SetAnalog { gpio },
            Command::EnableClockGate,
            Command::PowerPad { index },
        ],
    }
}

/// Puts `value` out on channel `index`.
pub open spec fn write_commands(index: usize, value: u8) -> Seq<Command> {
    seq![Command::ClearCosine { index }, Command::WritePad { index, value }]
}

impl<'d, T> Dac<'d, T> where T: Instance + 'd, T::Pin: AnalogPin + 'd {
    /// The token of the channel.
    pub closed spec fn inner(&self) -> T {
        self._inner
    }

    /// Sets the channel up. It stays powered when the driver goes away.
    pub fn new(dac: T, pin: T::Pin, commands: &mut Vec<Command>) -> (r: Self)
        ensures
            r.inner() == dac,
            final(commands)@ == old(commands)@ + setup_commands(T::on_chip(), T::index(), T::Pin::gpio()),
    {
        pin.set_analog(commands);
        match T::chip() {
            Chip::Esp32 => {},
            Chip::Esp32s2 => commands.push(Command::EnableClockGate),
        }
        T::enable_xpd(commands);
        Self { _inner: dac, _lifetime: PhantomData }
    }

    /// Writes the given value.
    ///
    /// For each DAC channel, the output analog voltage can be calculated as follows:
    /// `DACn_OUT = VDD3P3_RTC * PDACn_DAC / 256`.
    pub fn write(&mut self, value: u8, commands: &mut Vec<Command>)
        ensures
            *final(self) == *old(self),
            final(commands)@ == old(commands)@ + write_commands(T::index(), value),
    {
        T::set_pad_source(commands);
        T::write_byte(value, commands);
    }
}

} // verus!
