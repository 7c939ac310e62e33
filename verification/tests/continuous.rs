use core::marker::PhantomData;
use esp_dac::command::Command;
use esp_dac::continuous_dma::{Config, DacContinuousTx, DmaTransferTx, DmaTransferTxCircular, Error};
use esp_dac::dma::{
    AnySpiDmaChannel, ChannelTx, DescriptorChain, DmaAlignmentError, DmaError, DmaPeripheral,
    DmaTxInterrupt, DmaTxInterrupts, ReadBuffer,
};
use esp_dac::peripherals::esp32s2::{DAC1, GPIO17, SPI3};
use esp_dac::system::{Blocking, Peripheral, PeripheralGuard};

const APB_HZ: u32 = 80_000_000;

const CHAIN: DescriptorChain = DescriptorChain { first: 0x3ffb_0000, count: 4 };

const WORDS: ReadBuffer = ReadBuffer { ptr: 0x3ffb_1000, len: 4096 };

const EOF: DmaTxInterrupts =
    DmaTxInterrupts { total_eof: false, descriptor_error: false, eof: true, done: false };

const NONE: DmaTxInterrupts =
    DmaTxInterrupts { total_eof: false, descriptor_error: false, eof: false, done: false };

fn open(cfg: Config, commands: &mut Vec<Command>) -> Result<DacContinuousTx<'static, Blocking>, Error> {
    DacContinuousTx::new(
        DAC1(PhantomData),
        GPIO17(PhantomData),
        SPI3(PhantomData),
        AnySpiDmaChannel::Spi3,
        cfg,
        CHAIN,
        APB_HZ,
        commands,
    )
}

fn driver() -> DacContinuousTx<'static, Blocking> {
    let mut commands = Vec::new();
    match open(Config::new(44_100), &mut commands) {
        Ok(tx) => tx,
        Err(_) => panic!("44100 Hz is supported"),
    }
}

fn claim() -> Vec<Command> {
    vec![
        Command::SetAnalog { gpio: 17 },
        Command::EnableClockGate,
        Command::PowerPad { index: 0 },
        Command::ClearCosine { index: 0 },
        Command::OpenChannel(AnySpiDmaChannel::Spi3),
        Command::AcquirePeripheral(Peripheral::Spi3),
    ]
}

fn start(circular: bool) -> Vec<Command> {
    vec![
        Command::EnableTimer(false),
        Command::ResetFifo(true),
        Command::ResetFifo(false),
        Command::EnableTimer(true),
        Command::FillForTx { chain: CHAIN, circular, buffer: WORDS },
    ]
}

fn launch() -> Vec<Command> {
    vec![
        Command::ListenOut(EOF),
        Command::UseDefaultBurst,
        Command::SetDescriptorBurst(true),
        Command::SetCheckOwner(Some(false)),
        Command::SetAutoWriteBack(false),
        Command::Fence,
        Command::ClearInterrupts,
        Command::ResetChannel,
        Command::SetLinkAddr(0x3ffb_0000),
        Command::SetPeripheral(DmaPeripheral::Spi3),
        Command::StartChannel,
    ]
}

#[test]
fn configuration() {
    assert_eq!(Config::new(8_000), Config { freq_hz: 8_000, invert_clock: true });
    assert_eq!(
        Config::new(8_000).with_invert_clock(false),
        Config { freq_hz: 8_000, invert_clock: false }
    );
    assert_eq!(
        Config::new(8_000).with_invert_clock(false).with_invert_clock(true),
        Config::new(8_000)
    );
}

#[test]
fn dma_errors_convert() {
    assert_eq!(Error::from(DmaError::Late), Error::Dma(DmaError::Late));
    let aligned: Error = DmaError::InvalidAlignment(DmaAlignmentError::Size).into();
    assert_eq!(aligned, Error::Dma(DmaError::InvalidAlignment(DmaAlignmentError::Size)));
    assert_ne!(aligned, Error::UnsupportedFrequency);
}

#[test]
fn interrupt_sets() {
    let all = [
        DmaTxInterrupt::TotalEof,
        DmaTxInterrupt::DescriptorError,
        DmaTxInterrupt::Eof,
        DmaTxInterrupt::Done,
    ];
    for one in all {
        let set = DmaTxInterrupts::only(one);
        for other in all {
            assert_eq!(set.contains(other), one == other);
            assert!(!NONE.contains(other));
        }
    }
    assert_eq!(DmaTxInterrupts::only(DmaTxInterrupt::Eof), EOF);
}

#[test]
fn channels_serve_their_controller() {
    assert!(AnySpiDmaChannel::Spi3.is_compatible_with(DmaPeripheral::Spi3));
    assert!(AnySpiDmaChannel::Spi2.is_compatible_with(DmaPeripheral::Spi2));
    assert!(!AnySpiDmaChannel::Spi2.is_compatible_with(DmaPeripheral::Spi3));
    assert!(!AnySpiDmaChannel::Spi3.is_compatible_with(DmaPeripheral::Spi2));
}

#[test]
fn guards_and_channels() {
    let mut commands = Vec::new();
    let guard = PeripheralGuard::new(Peripheral::Spi3, &mut commands);
    let tx: ChannelTx<Blocking> = ChannelTx::new(AnySpiDmaChannel::Spi2, &mut commands);
    guard.release(&mut commands);
    tx.close(&mut commands);
    assert_eq!(
        commands,
        vec![
            Command::AcquirePeripheral(Peripheral::Spi3),
            Command::OpenChannel(AnySpiDmaChannel::Spi2),
            Command::ReleasePeripheral(Peripheral::Spi3),
            Command::CloseChannel(AnySpiDmaChannel::Spi2),
        ]
    );
}

#[test]
fn opening_programs_the_clock() {
    let mut commands = Vec::new();
    assert!(open(Config::new(77), &mut commands).is_ok());
    let mut expected = claim();
    expected.extend(vec![
        Command::SetDivider { div_num: 252, div_b: 7, div_a: 5, clk_sel: 2 },
        Command::GateSarClock,
        Command::InvertClock(true),
        Command::SetTimerTarget(4095),
        Command::SetAlternate(false),
        Command::ResetController(true),
        Command::ResetController(false),
        Command::ResetFifo(true),
        Command::ResetFifo(false),
        Command::ForceDigital(true),
        Command::ConnectDma(true),
    ]);
    assert_eq!(commands, expected);
}

#[test]
fn clock_need_not_be_inverted() {
    let mut commands = Vec::new();
    assert!(open(Config::new(44_100).with_invert_clock(false), &mut commands).is_ok());
    assert!(commands.contains(&Command::InvertClock(false)));
    assert!(commands.contains(&Command::SetTimerTarget(907)));
    assert!(commands.contains(&Command::SetDivider { div_num: 1, div_b: 2, div_a: 0, clk_sel: 2 }));
}

#[test]
fn unsupported_frequency_gives_everything_back() {
    for freq_hz in [0, 76, 40_000_001, u32::MAX] {
        let mut commands = Vec::new();
        assert_eq!(
            open(Config::new(freq_hz), &mut commands).err(),
            Some(Error::UnsupportedFrequency)
        );
        let mut expected = claim();
        expected.push(Command::ReleasePeripheral(Peripheral::Spi3));
        expected.push(Command::CloseChannel(AnySpiDmaChannel::Spi3));
        assert_eq!(commands, expected);
    }
}

#[test]
fn circular_transfer() {
    let mut tx = driver();
    let mut commands = Vec::new();
    let starting = tx.write_dma_circular(&WORDS, &mut commands);
    assert_eq!(commands, start(true));
    commands.clear();
    let launching = starting.chain_filled(Ok(()), &mut commands).ok().unwrap();
    assert_eq!(commands, launch());
    let transfer: DmaTransferTxCircular<'_, '_, Blocking> = launching.launched(EOF).ok().unwrap();
    commands.clear();
    transfer.instance.peripheral_dma_stop(&mut commands);
    assert_eq!(
        commands,
        vec![
            Command::EnableTimer(false),
            Command::StopTransfer,
            Command::ForceDigital(false),
            Command::ConnectDma(false),
        ]
    );
}

#[test]
fn single_transfer() {
    let mut tx = driver();
    let mut commands = Vec::new();
    let starting = tx.write_dma(&WORDS, &mut commands);
    assert_eq!(commands, start(false));
    commands.clear();
    let launching = starting.chain_filled(Ok(()), &mut commands).ok().unwrap();
    assert_eq!(commands, launch());
    let transfer: DmaTransferTx<'_, '_, Blocking> = launching.launched(NONE).ok().unwrap();
    assert!(!transfer.instance.peripheral_wait_dma(true, false));
}

#[test]
fn unfilled_chain_does_not_start_the_channel() {
    for error in [DmaError::OutOfDescriptors, DmaError::BufferTooSmall, DmaError::DescriptorError] {
        let mut tx = driver();
        let mut commands = Vec::new();
        let starting = tx.write_dma(&WORDS, &mut commands);
        let refused = starting.chain_filled(Err(error), &mut commands);
        assert_eq!(refused.err(), Some(Error::Dma(error)));
        assert_eq!(commands, start(false));
    }
}

#[test]
fn rejected_descriptor_is_reported() {
    let mut tx = driver();
    let mut commands = Vec::new();
    let starting = tx.write_dma_circular(&WORDS, &mut commands);
    let launching = starting.chain_filled(Ok(()), &mut commands).ok().unwrap();
    let pending = DmaTxInterrupts { total_eof: true, descriptor_error: true, eof: true, done: true };
    assert_eq!(
        launching.launched(pending).err(),
        Some(Error::Dma(DmaError::DescriptorError))
    );
}

#[test]
fn other_interrupts_do_not_matter() {
    let mut tx = driver();
    let mut commands = Vec::new();
    let starting = tx.write_dma(&WORDS, &mut commands);
    let launching = starting.chain_filled(Ok(()), &mut commands).ok().unwrap();
    let pending = DmaTxInterrupts { total_eof: true, descriptor_error: false, eof: true, done: true };
    assert!(launching.launched(pending).is_ok());
}

#[test]
fn waiting_ends_when_done_or_failed() {
    let tx = driver();
    assert!(tx.peripheral_wait_dma(false, false));
    assert!(!tx.peripheral_wait_dma(true, false));
    assert!(!tx.peripheral_wait_dma(false, true));
    assert!(!tx.peripheral_wait_dma(true, true));
}

#[test]
fn triggers_are_off_while_the_fifo_is_reset() {
    let mut tx = driver();
    let mut commands = Vec::new();
    let starting = tx.write_dma(&WORDS, &mut commands);
    let launching = starting.chain_filled(Ok(()), &mut commands).ok().unwrap();
    assert!(launching.launched(NONE).is_ok());
    let mut timer = true;
    let mut started = false;
    for command in &commands {
        match command {
            Command::EnableTimer(on) => timer = *on,
            Command::ResetFifo(true) => assert!(!timer),
            Command::StartChannel => {
                assert!(timer);
                started = true;
            }
            _ => {}
        }
    }
    assert!(started);
}

#[test]
fn stop_switches_the_triggers_off_first() {
    let mut tx = driver();
    let mut commands = Vec::new();
    tx.peripheral_dma_stop(&mut commands);
    let timer = commands.iter().position(|c| *c == Command::EnableTimer(false));
    let stop = commands.iter().position(|c| *c == Command::StopTransfer);
    assert!(timer.unwrap() < stop.unwrap());
}

#[test]
fn claims_on_the_clock_are_balanced() {
    let mut commands = Vec::new();
    let mut tx = open(Config::new(44_100), &mut commands).ok().unwrap();
    let starting = tx.write_dma(&WORDS, &mut commands);
    let launching = starting.chain_filled(Ok(()), &mut commands).ok().unwrap();
    assert!(launching.launched(NONE).is_ok());
    tx.peripheral_dma_stop(&mut commands);
    let claims = |commands: &Vec<Command>| {
        let mut n = 0;
        for command in commands {
            match command {
                Command::AcquirePeripheral(_) => n += 1,
                Command::ReleasePeripheral(_) => n -= 1,
                _ => {}
            }
        }
        n
    };
    assert_eq!(claims(&commands), 1);
    tx.release(&mut commands);
    assert_eq!(claims(&commands), 0);
}

#[test]
fn accessors_reach_the_driver() {
    let mut tx = driver();
    assert_eq!(*tx.chain(), CHAIN);
    let other = DescriptorChain { first: 0x3ffb_2000, count: 2 };
    *tx.chain() = other;
    let mut commands = Vec::new();
    let starting = tx.write_dma(&WORDS, &mut commands);
    assert_eq!(
        commands.last(),
        Some(&Command::FillForTx { chain: other, circular: false, buffer: WORDS })
    );
    assert!(starting.chain_filled(Ok(()), &mut commands).is_ok());
    assert!(commands.contains(&Command::SetLinkAddr(0x3ffb_2000)));
    *tx.tx() = ChannelTx::new(AnySpiDmaChannel::Spi2, &mut commands);
    commands.clear();
    tx.release(&mut commands);
    assert_eq!(
        commands,
        vec![
            Command::ReleasePeripheral(Peripheral::Spi3),
            Command::CloseChannel(AnySpiDmaChannel::Spi2),
        ]
    );
}
