use core::marker::PhantomData;
use esp_dac::command::Command;
use esp_dac::dac::{Dac, Instance};
use esp_dac::gpio::AnalogPin;
use esp_dac::peripherals::{esp32, esp32s2};
use esp_dac::system::Chip;

/// The pads of the two channels, as far as the commands reach them.
#[derive(Debug, Clone, Copy, PartialEq, Eq)]
struct Pads {
    powered: [bool; 2],
    cosine: [bool; 2],
    value: [u8; 2],
}

fn play(mut pads: Pads, commands: &[Command]) -> Pads {
    for command in commands {
        match *command {
            Command::PowerPad { index } => pads.powered[index] = true,
            Command::ClearCosine { index } => pads.cosine[index] = false,
            Command::WritePad { index, value } => pads.value[index] = value,
            _ => {}
        }
    }
    pads
}

fn reset() -> Pads {
    Pads { powered: [false; 2], cosine: [true; 2], value: [0; 2] }
}

#[test]
fn channels_of_the_esp32() {
    assert_eq!(esp32::DAC1::INDEX, 0);
    assert_eq!(esp32::DAC2::INDEX, 1);
    assert_eq!(esp32::DAC1::chip(), Chip::Esp32);
    assert_eq!(esp32::DAC2::chip(), Chip::Esp32);
    assert_eq!(esp32::GPIO25::GPIO, 25);
    assert_eq!(esp32::GPIO26::GPIO, 26);
}

#[test]
fn channels_of_the_esp32s2() {
    assert_eq!(esp32s2::DAC1::INDEX, 0);
    assert_eq!(esp32s2::DAC2::INDEX, 1);
    assert_eq!(esp32s2::DAC1::chip(), Chip::Esp32s2);
    assert_eq!(esp32s2::DAC2::chip(), Chip::Esp32s2);
    assert_eq!(esp32s2::GPIO17::GPIO, 17);
    assert_eq!(esp32s2::GPIO18::GPIO, 18);
}

#[test]
fn setup_on_the_esp32() {
    let mut commands = Vec::new();
    Dac::new(esp32::DAC1(PhantomData), esp32::GPIO25(PhantomData), &mut commands);
    assert_eq!(
        commands,
        vec![Command::SetAnalog { gpio: 25 }, Command::PowerPad { index: 0 }]
    );
    let mut commands = Vec::new();
    Dac::new(esp32::DAC2(PhantomData), esp32::GPIO26(PhantomData), &mut commands);
    assert_eq!(
        commands,
        vec![Command::SetAnalog { gpio: 26 }, Command::PowerPad { index: 1 }]
    );
}

#[test]
fn setup_on_the_esp32s2_opens_the_clock_gate() {
    let mut commands = Vec::new();
    Dac::new(esp32s2::DAC1(PhantomData), esp32s2::GPIO17(PhantomData), &mut commands);
    assert_eq!(
        commands,
        vec![
            Command::SetAnalog { gpio: 17 },
            Command::EnableClockGate,
            Command::PowerPad { index: 0 },
        ]
    );
    let mut commands = Vec::new();
    Dac::new(esp32s2::DAC2(PhantomData), esp32s2::GPIO18(PhantomData), &mut commands);
    assert_eq!(
        commands,
        vec![
            Command::SetAnalog { gpio: 18 },
            Command::EnableClockGate,
            Command::PowerPad { index: 1 },
        ]
    );
}

#[test]
fn write_selects_the_pad_first() {
    let mut commands = Vec::new();
    let mut dac = Dac::new(esp32s2::DAC2(PhantomData), esp32s2::GPIO18(PhantomData), &mut commands);
    commands.clear();
    dac.write(200, &mut commands);
    assert_eq!(
        commands,
        vec![
            Command::ClearCosine { index: 1 },
            Command::WritePad { index: 1, value: 200 },
        ]
    );
}

#[test]
fn commands_are_appended() {
    let mut commands = vec![Command::Fence];
    let mut dac = Dac::new(esp32::DAC1(PhantomData), esp32::GPIO25(PhantomData), &mut commands);
    dac.write(1, &mut commands);
    assert_eq!(commands[0], Command::Fence);
    assert_eq!(commands.len(), 5);
}

#[test]
fn single_steps_of_a_channel() {
    let mut commands = Vec::new();
    esp32::DAC2::enable_xpd(&mut commands);
    esp32::DAC2::set_pad_source(&mut commands);
    esp32::DAC2::write_byte(9, &mut commands);
    esp32::GPIO26(PhantomData).set_analog(&mut commands);
    assert_eq!(
        commands,
        vec![
            Command::PowerPad { index: 1 },
            Command::ClearCosine { index: 1 },
            Command::WritePad { index: 1, value: 9 },
            Command::SetAnalog { gpio: 26 },
        ]
    );
}

#[test]
fn rising_voltage_wraps_around() {
    let mut commands = Vec::new();
    let mut dac1 = Dac::new(esp32::DAC1(PhantomData), esp32::GPIO25(PhantomData), &mut commands);
    let mut voltage_dac1 = 200u8;
    let mut written = Vec::new();
    for _ in 0..100 {
        voltage_dac1 = voltage_dac1.wrapping_add(1);
        commands.clear();
        dac1.write(voltage_dac1, &mut commands);
        written.push(play(reset(), &commands).value[0]);
    }
    assert_eq!(written[0], 201);
    assert_eq!(written[54], 255);
    assert_eq!(written[55], 0);
    assert_eq!(written[99], 44);
}

#[test]
fn output_follows_the_written_value() {
    let mut commands = Vec::new();
    let mut dac = Dac::new(esp32::DAC1(PhantomData), esp32::GPIO25(PhantomData), &mut commands);
    dac.write(128, &mut commands);
    let pads = play(reset(), &commands);
    assert!(pads.powered[0] && !pads.cosine[0]);
    assert_eq!(3300 * pads.value[0] as u32 / 256, 1650);
}

#[test]
fn last_write_wins() {
    let mut commands = Vec::new();
    let mut dac = Dac::new(esp32::DAC1(PhantomData), esp32::GPIO25(PhantomData), &mut commands);
    commands.clear();
    dac.write(7, &mut commands);
    dac.write(70, &mut commands);
    let both = play(reset(), &commands);
    commands.clear();
    dac.write(70, &mut commands);
    assert_eq!(both, play(reset(), &commands));
}

#[test]
fn channels_do_not_disturb_each_other() {
    let mut commands = Vec::new();
    let mut dac1 = Dac::new(esp32::DAC1(PhantomData), esp32::GPIO25(PhantomData), &mut commands);
    let mut dac2 = Dac::new(esp32::DAC2(PhantomData), esp32::GPIO26(PhantomData), &mut commands);
    commands.clear();
    dac1.write(7, &mut commands);
    assert_eq!(play(reset(), &commands).value, [7, 0]);
    assert_eq!(play(reset(), &commands).cosine, [false, true]);
    dac2.write(70, &mut commands);
    let one_two = play(reset(), &commands);
    commands.clear();
    dac2.write(70, &mut commands);
    dac1.write(7, &mut commands);
    assert_eq!(one_two, play(reset(), &commands));
    assert_eq!(one_two.value, [7, 70]);
}
