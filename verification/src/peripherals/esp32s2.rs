//! Tokens of the ESP32-S2.
use crate::dac::Instance;
use crate::gpio::AnalogPin;
use crate::private::Sealed;
use crate::system::Chip;
use core::marker::PhantomData;
use vstd::prelude::*;

verus! {

/// Pin 17.
pub struct GPIO17<'d>(pub PhantomData<&'d mut ()>);

impl<'d> Sealed for GPIO17<'d> {

}

impl<'d> AnalogPin for GPIO17<'d> {
    const GPIO: u8 = 17;

    open spec fn gpio() -> u8 {
        17
    }

    proof fn gpio_is_constant() {
        assert(Self::GPIO == 17);
    }
}

/// Pin 18.
pub struct GPIO18<'d>(pub PhantomData<&'d mut ()>);

impl<'d> Sealed for GPIO18<'d> {

}

impl<'d> AnalogPin for GPIO18<'d> {
    const GPIO: u8 = 18;

    open spec fn gpio() -> u8 {
        18
    }

    proof fn gpio_is_constant() {
        assert(Self::GPIO == 18);
    }
}

/// DAC channel 1 of the ESP32-S2, on pin 17.
pub struct DAC1<'d>(pub PhantomData<&'d mut ()>);

impl<'d> Sealed for DAC1<'d> {

}

impl<'d> Instance for DAC1<'d> {
    const INDEX: usize = 0;

    type Pin = GPIO17<'d>;

    open spec fn index() -> usize {
        0
    }

    open spec fn on_chip() -> Chip {
        Chip::Esp32s2
    }

    fn chip() -> Chip {
        Chip::Esp32s2
    }

    proof fn index_is_constant() {
        assert(Self::INDEX == 0);
    }
}

/// DAC channel 2 of the ESP32-S2, on pin 18.
pub struct DAC2<'d>(pub PhantomData<&'d mut ()>);

impl<'d> Sealed for DAC2<'d> {

}

impl<'d> Instance for DAC2<'d> {
    const INDEX: usize = 1;

    type Pin = GPIO18<'d>;

    open spec fn index() -> usize {
        1
    }

    open spec fn on_chip() -> Chip {
        Chip::Esp32s2
    }

    fn chip() -> Chip {
        Chip::Esp32s2
    }

    proof fn index_is_constant() {
        assert(Self::INDEX == 1);
    }
}

/// The channels of the ESP32-S2: the first is on pin 17, the second on pin 18.
pub proof fn law_channels<'d>()
    ensures
        DAC1::<'d>::on_chip() == Chip::Esp32s2,
        DAC2::<'d>::on_chip() == Chip::Esp32s2,
        DAC1::<'d>::index() == 0,
        DAC2::<'d>::index() == 1,
        <DAC1<'d> as Instance>::Pin::gpio() == 17,
        <DAC2<'d> as Instance>::Pin::gpio() == 18,
{
}

/// The SPI3 controller of the ESP32-S2.
pub struct SPI3<'d>(pub PhantomData<&'d mut ()>);

impl<'d> Sealed for SPI3<'d> {

}

} // verus!
