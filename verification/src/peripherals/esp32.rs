//! Tokens of the ESP32.
use crate::dac::Instance;
use crate::gpio::AnalogPin;
use crate::private::Sealed;
use crate::system::Chip;
use core::marker::PhantomData;
use vstd::prelude::*;

verus! {

/// Pin 25.
pub struct GPIO25<'d>(pub PhantomData<&'d mut ()>);

impl<'d> Sealed for GPIO25<'d> {

}

impl<'d> AnalogPin for GPIO25<'d> {
    const GPIO: u8 = 25;

    open spec fn gpio() -> u8 {
        25
    }

    proof fn gpio_is_constant() {
        assert(Self::GPIO == 25);
    }
}

/// Pin 26.
pub struct GPIO26<'d>(pub PhantomData<&'d mut ()>);

impl<'d> Sealed for GPIO26<'d> {

}

impl<'d> AnalogPin for GPIO26<'d> {
    const GPIO: u8 = 26;

    open spec fn gpio() -> u8 {
        26
    }

    proof fn gpio_is_constant() {
        assert(Self::GPIO == 26);
    }
}

/// DAC channel 1 of the ESP32, on pin 25.
pub struct DAC1<'d>(pub PhantomData<&'d mut ()>);

impl<'d> Sealed for DAC1<'d> {

}

impl<'d> Instance for DAC1<'d> {
    const INDEX: usize = 0;

    type Pin = GPIO25<'d>;

    open spec fn index() -> usize {
        0
    }

    open spec fn on_chip() -> Chip {
        Chip::Esp32
    }

    fn chip() -> Chip {
        Chip::Esp32
    }

    proof fn index_is_constant() {
        assert(Self::INDEX == 0);
    }
}

/// DAC channel 2 of the ESP32, on pin 26.
pub struct DAC2<'d>(pub PhantomData<&'d mut ()>);

impl<'d> Sealed for DAC2<'d> {

}

impl<'d> Instance for DAC2<'d> {
    const INDEX: usize = 1;

    type Pin = GPIO26<'d>;

    open spec fn index() -> usize {
        1
    }

    open spec fn on_chip() -> Chip {
        Chip::Esp32
    }

    fn chip() -> Chip {
        Chip::Esp32
    }

    proof fn index_is_constant() {
        assert(Self::INDEX == 1);
    }
}

/// The channels of the ESP32: the first is on pin 25, the second on pin 26.
pub proof fn law_channels<'d>()
    ensures
        DAC1::<'d>::on_chip() == Chip::Esp32,
        DAC2::<'d>::on_chip() == Chip::Esp32,
        DAC1::<'d>::index() == 0,
        DAC2::<'d>::index() == 1,
        <DAC1<'d> as Instance>::Pin::gpio() == 25,
        <DAC2<'d> as Instance>::Pin::gpio() == 26,
{
}

} // verus!
