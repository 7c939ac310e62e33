//! ESP32-S2 DAC continuous output backed by SPI3 DMA.
//!
//! - The digital controller of the DAC is part of `APB_SARADC` and shares its clock and dividers
//!   with the digital controller of the ADC.
//! - Its data comes from the DMA channel of SPI3; no SPI pins are involved, and SPI3 is reserved
//!   for the DAC.
//!
//! A transfer is started in three steps, because the platform has to answer in between:
//! [`DacContinuousTx::write_dma_circular`] or [`DacContinuousTx::write_dma`] ends with the
//! command to fill the descriptors; [`TxStart::chain_filled`] takes the outcome and starts the
//! channel; [`TxLaunch::launched`] takes the interrupts that are pending then and gives the
//! handle of the transfer.
use crate::clock_plan::{clock_plan, is_supported, law_plan_fits_registers, plan_clock, ClockPlan};
use crate::command::Command;
use crate::dac::{setup_commands, Dac, Instance};
use crate::dma::{
    AnySpiDmaChannel, ChannelTx, DescriptorChain, DmaError, DmaPeripheral, DmaTxInterrupt,
    DmaTxInterrupts, ReadBuffer,
};
use crate::peripherals::esp32s2::{DAC1, GPIO17, SPI3};
use crate::system::{Blocking, Chip, DriverMode, Peripheral, PeripheralGuard};
use core::marker::PhantomData;
use vstd::prelude::*;

verus! {

/// Errors returned by the DAC continuous DMA driver.
#[derive(Debug, Clone, Copy, PartialEq, Eq, Structural)]
pub enum Error {
    /// The requested frequency cannot be represented with the available dividers.
    UnsupportedFrequency,
    /// DMA configuration or runtime error.
    Dma(DmaError),
}

impl From<DmaError> for Error {
    fn from(e: DmaError) -> (r: Self) {
        Error::Dma(e)
    }
}

impl vstd::std_specs::convert::FromSpecImpl<DmaError> for Error {
    open spec fn obeys_from_spec() -> bool {
        true
    }

    open spec fn from_spec(e: DmaError) -> Self {
        Error::Dma(e)
    }
}

/// An error of the DMA controller is passed on as it is.
pub proof fn law_dma_error_is_kept(e: DmaError)
    ensures
        <Error as vstd::std_specs::convert::FromSpec<DmaError>>::from_spec(e) == Error::Dma(e),
{
}

/// Configuration for DAC continuous output.
#[derive(Debug, Clone, Copy, PartialEq, Eq, Structural)]
pub struct Config {
    /// DAC conversion frequency in Hz (bytes/s for mono).
    pub freq_hz: u32,
    /// Whether to invert the DAC digital controller clock.
    pub invert_clock: bool,
}

impl Config {
    /// Create a new configuration for mono continuous DAC output. The clock is inverted.
    ///
    /// `freq_hz` is the DAC conversion frequency (i.e. bytes/s for mono).
    pub fn new(freq_hz: u32) -> (config: Self)
        ensures
            config == (Config { freq_hz, invert_clock: true }),
    {
        Self { freq_hz, invert_clock: true }
    }

    /// Configure whether to invert the DAC digital controller clock.
    pub fn with_invert_clock(self, invert: bool) -> (config: Self)
        ensures
            config == (Config { freq_hz: self.freq_hz, invert_clock: invert }),
    {
        let mut config = self;
        config.invert_clock = invert;
        config
    }
}

/// The source of the divider: the APB clock.
pub const CLK_SEL_APB: u8 = 2;

/// Takes hold of the hardware: the pad of channel 1 as its source, the DMA channel and the clock
/// of SPI3.
pub open spec fn claim_commands(dma: AnySpiDmaChannel) -> Seq<Command> {
    setup_commands(Chip::Esp32s2, 0, 17) + seq![
        Command::ClearCosine { index: 0 },
        Command::OpenChannel(dma),
        Command::AcquirePeripheral(Peripheral::Spi3),
    ]
}

/// Gives back what can be given back.
pub open spec fn release_commands(dma: AnySpiDmaChannel) -> Seq<Command> {
    seq![Command::ReleasePeripheral(Peripheral::Spi3), Command::CloseChannel(dma)]
}

/// Programs the clock and connects the digital controller to the DMA channel.
pub open spec fn configure_commands(
    plan: ClockPlan,
    invert_clock: bool,
    is_alternate: bool,
) -> Seq<Command> {
    seq![
        Command::SetDivider {
            div_num: (plan.div.integer - 1) as u8,
            div_b: plan.div.denominator as u8,
            div_a: plan.div.numerator as u8,
            clk_sel: CLK_SEL_APB,
        },
        Command::GateSarClock,
        Command::InvertClock(invert_clock),
        Command::SetTimerTarget(plan.interval as u16),
        Command::SetAlternate(is_alternate),
        Command::ResetController(true),
        Command::ResetController(false),
        Command::ResetFifo(true),
        Command::ResetFifo(false),
        Command::ForceDigital(true),
        Command::ConnectDma(true),
    ]
}

/// Makes the digital controller ready and asks for the descriptors to be filled.
pub open spec fn start_commands(
    chain: DescriptorChain,
    circular: bool,
    buffer: ReadBuffer,
) -> Seq<Command> {
    seq![
        Command::EnableTimer(false),
        Command::ResetFifo(true),
        Command::ResetFifo(false),
        Command::EnableTimer(true),
        Command::FillForTx { chain, circular, buffer },
    ]
}

/// The set of interrupts that a transfer listens to.
pub open spec fn eof_only() -> DmaTxInterrupts {
    DmaTxInterrupts { total_eof: false, descriptor_error: false, eof: true, done: false }
}

/// Starts the channel on the filled descriptors.
pub open spec fn launch_commands(chain: DescriptorChain) -> Seq<Command> {
    seq![
        Command::ListenOut(eof_only()),
        Command::UseDefaultBurst,
        Command::SetDescriptorBurst(true),
        Command::SetCheckOwner(Some(false)),
        Command::SetAutoWriteBack(false),
        Command::Fence,
        Command::ClearInterrupts,
        Command::ResetChannel,
        Command::SetLinkAddr(chain.first),
        Command::SetPeripheral(DmaPeripheral::Spi3),
        Command::StartChannel,
    ]
}

/// Stops the output, then the channel, and disconnects the two.
pub open spec fn stop_commands() -> Seq<Command> {
    seq![
        Command::EnableTimer(false),
        Command::StopTransfer,
        Command::ForceDigital(false),
        Command::ConnectDma(false),
    ]
}

/// DAC continuous output driver (mono, DAC1 / GPIO17) using SPI3 DMA TX.
pub struct DacContinuousTx<'d, Dm> where Dm: DriverMode {
    _dac: Dac<'d, DAC1<'d>>,
    spi3_guard: PeripheralGuard,
    _spi3: SPI3<'d>,
    tx_channel: ChannelTx<Dm>,
    tx_chain: DescriptorChain,
    cfg: Config,
}

impl<'d, Dm> DacContinuousTx<'d, Dm> where Dm: DriverMode {
    /// The configuration of the driver.
    pub closed spec fn config(&self) -> Config {
        self.cfg
    }

    /// The DMA channel of the driver.
    pub closed spec fn tx_channel(&self) -> ChannelTx<Dm> {
        self.tx_channel
    }

    /// The descriptors of the driver.
    pub closed spec fn tx_chain(&self) -> DescriptorChain {
        self.tx_chain
    }
}

impl<'d> DacContinuousTx<'d, Blocking> {
    /// Create a mono continuous DAC output on DAC1 (GPIO17), backed by SPI3 DMA.
    ///
    /// - `spi3` is consumed and reserved for DAC DMA usage.
    /// - `dma` must be `DMA_SPI3`.
    /// - `descriptors` are the DMA descriptors for circular transfers.
    /// - `apb_hz` is the frequency of the APB clock.
    ///
    /// Where the frequency is not supported, the clock of SPI3 and the channel are given back.
    pub fn new(
        dac1: DAC1<'d>,
        dac1_pin: GPIO17<'d>,
        spi3: SPI3<'d>,
        dma: AnySpiDmaChannel,
        cfg: Config,
        descriptors: DescriptorChain,
        apb_hz: u32,
        commands: &mut Vec<Command>,
    ) -> (r: Result<Self, Error>)
        requires
            dma.serves(DmaPeripheral::Spi3),
        ensures
            r is Ok <==> is_supported(apb_hz as int, cfg.freq_hz as int, false),
            r matches Ok(tx) ==> {
                &&& tx.config() == cfg
                &&& tx.tx_channel().channel() == dma
                &&& tx.tx_chain() == descriptors
                &&& final(commands)@ == old(commands)@ + claim_commands(dma) + configure_commands(
                    clock_plan(apb_hz as int, cfg.freq_hz as int, false),
                    cfg.invert_clock,
                    false,
                )
            },
            r matches Err(e) ==> {
                &&& e == Error::UnsupportedFrequency
                &&& final(commands)@ == old(commands)@ + claim_commands(dma) + release_commands(dma)
            },
    {
        let _dac = Dac::new(dac1, dac1_pin, commands);
        DAC1::set_pad_source(commands);
        let tx_channel = ChannelTx::new(dma, commands);
        let spi3_guard = PeripheralGuard::new(Peripheral::Spi3, commands);
        let mut this = Self {
            _dac,
            spi3_guard,
            _spi3: spi3,
            tx_channel,
            tx_chain: descriptors,
            cfg,
        };
        assert(commands@ == old(commands)@ + claim_commands(dma));
        match this.configure_clock_and_enable_dma(apb_hz, cfg.freq_hz, false, commands) {
            Ok(()) => Ok(this),
            Err(e) => {
                this.release(commands);
                Err(e)
            },
        }
    }
}

impl<'d, Dm> DacContinuousTx<'d, Dm> where Dm: DriverMode {
    /// Connects the digital controller to the DMA channel, or disconnects it.
    #[inline(always)]
    fn dac_digi_enable_dma(enable: bool, commands: &mut Vec<Command>)
        ensures
            final(commands)@ == old(commands)@.push(Command::ForceDigital(enable)).push(
                Command::ConnectDma(enable),
            ),
    {
        commands.push(Command::ForceDigital(enable));
        commands.push(Command::ConnectDma(enable));
    }

    /// Sets whether the clock of the DAC is inverted.
    #[inline(always)]
    fn dac_digi_clk_inv(enable: bool, commands: &mut Vec<Command>)
        ensures
            final(commands)@ == old(commands)@.push(Command::InvertClock(enable)),
    {
        commands.push(Command::InvertClock(enable));
    }

    /// Sets whether the two channels convert in turn.
    #[inline(always)]
    fn dac_digi_set_convert_mode(is_alternate: bool, commands: &mut Vec<Command>)
        ensures
            final(commands)@ == old(commands)@.push(Command::SetAlternate(is_alternate)),
    {
        commands.push(Command::SetAlternate(is_alternate));
    }

    /// Sets the number of clock ticks between two triggers.
    #[inline(always)]
    fn dac_digi_set_trigger_interval(interval: u32, commands: &mut Vec<Command>)
        ensures
            final(commands)@ == old(commands)@.push(Command::SetTimerTarget(interval as u16)),
    {
        commands.push(Command::SetTimerTarget(interval as u16));
    }

    /// Switches the triggers on or off.
    #[inline(always)]
    fn dac_digi_trigger_output(enable: bool, commands: &mut Vec<Command>)
        ensures
            final(commands)@ == old(commands)@.push(Command::EnableTimer(enable)),
    {
        commands.push(Command::EnableTimer(enable));
    }

    /// Empties the FIFO of the digital controller.
    #[inline(always)]
    fn dac_digi_fifo_reset(commands: &mut Vec<Command>)
        ensures
            final(commands)@ == old(commands)@.push(Command::ResetFifo(true)).push(
                Command::ResetFifo(false),
            ),
    {
        commands.push(Command::ResetFifo(true));
        commands.push(Command::ResetFifo(false));
    }

    /// Resets the digital controller.
    #[inline(always)]
    fn dac_digi_reset(commands: &mut Vec<Command>)
        ensures
            final(commands)@ == old(commands)@.push(Command::ResetController(true)).push(
                Command::ResetController(false),
            ),
    {
        commands.push(Command::ResetController(true));
        commands.push(Command::ResetController(false));
    }

    /// Clocks the digital controller for conversions at `freq_hz` and connects it to the DMA
    /// channel. Nothing is programmed where the frequency is not supported.
    fn configure_clock_and_enable_dma(
        &mut self,
        apb_hz: u32,
        freq_hz: u32,
        is_alternate: bool,
        commands: &mut Vec<Command>,
    ) -> (r: Result<(), Error>)
        ensures
            *final(self) == *old(self),
            r is Ok <==> is_supported(
                apb_hz as int,
                freq_hz as int,
                is_alternate,
            ),
            r is Ok ==> final(commands)@ == old(commands)@ + configure_commands(
                clock_plan(apb_hz as int, freq_hz as int, is_alternate),
                old(self).config().invert_clock,
                is_alternate,
            ),
            r matches Err(e) ==> {
                &&& e == Error::UnsupportedFrequency
                &&& final(commands)@ == old(commands)@
            },
    {
        let plan = match plan_clock(apb_hz, freq_hz, is_alternate) {
            Some(plan) => plan,
            None => {
                return Err(Error::UnsupportedFrequency);
            },
        };
        proof {
            law_plan_fits_registers(apb_hz, freq_hz, is_alternate);
        }
        commands.push(
            Command::SetDivider {
                div_num: (plan.div.integer - 1) as u8,
                div_b: plan.div.denominator as u8,
                div_a: plan.div.numerator as u8,
                clk_sel: CLK_SEL_APB,
            },
        );
        commands.push(Command::GateSarClock);
        Self::dac_digi_clk_inv(self.cfg.invert_clock, commands);
        Self::dac_digi_set_trigger_interval(plan.interval, commands);
        Self::dac_digi_set_convert_mode(is_alternate, commands);
        Self::dac_digi_reset(commands);
        Self::dac_digi_fifo_reset(commands);
        Self::dac_digi_enable_dma(true, commands);
        Ok(())
    }

    /// First step of a transfer. The triggers are on before the channel starts, so that the DAC
    /// is clocked while the channel comes up.
    fn start_tx_transfer<'t, K>(
        &'t mut self,
        words: &ReadBuffer,
        circular: bool,
        commands: &mut Vec<Command>,
    ) -> (start: TxStart<'t, 'd, Dm, K>)
        ensures
            *start.instance == *old(self),
            *final(self) == *final(start.instance),
            final(commands)@ == old(commands)@ + start_commands(
                old(self).tx_chain(),
                circular,
                *words,
            ),
    {
        Self::dac_digi_trigger_output(false, commands);
        Self::dac_digi_fifo_reset(commands);
        Self::dac_digi_trigger_output(true, commands);
        commands.push(Command::FillForTx { chain: self.tx_chain, circular, buffer: *words });
        TxStart { instance: self, token: Requested { kind: PhantomData } }
    }

    /// Continuously write to the DAC using a circular DMA buffer.
    pub fn write_dma_circular<'t>(
        &'t mut self,
        words: &ReadBuffer,
        commands: &mut Vec<Command>,
    ) -> (start: TxStart<'t, 'd, Dm, Circular>)
        ensures
            *start.instance == *old(self),
            *final(self) == *final(start.instance),
            final(commands)@ == old(commands)@ + start_commands(old(self).tx_chain(), true, *words),
    {
        self.start_tx_transfer(words, true, commands)
    }

    /// Write a single-shot DMA buffer (acyclic).
    pub fn write_dma<'t>(
        &'t mut self,
        words: &ReadBuffer,
        commands: &mut Vec<Command>,
    ) -> (start: TxStart<'t, 'd, Dm, Single>)
        ensures
            *start.instance == *old(self),
            *final(self) == *final(start.instance),
            final(commands)@ == old(commands)@ + start_commands(
                old(self).tx_chain(),
                false,
                *words,
            ),
    {
        self.start_tx_transfer(words, false, commands)
    }

    /// Whether waiting for a single-shot transfer goes on, given whether the channel reports
    /// that it is done and whether it reports an error. A circular transfer is never done; it is
    /// stopped.
    pub fn peripheral_wait_dma(&self, is_done: bool, has_error: bool) -> (waiting: bool)
        ensures
            waiting <==> !is_done && !has_error,
    {
        !is_done && !has_error
    }

    /// Stops a transfer. The triggers go first, so that no stale data is converted. The channel
    /// of the DAC stays powered.
    pub fn peripheral_dma_stop(&mut self, commands: &mut Vec<Command>)
        ensures
            *final(self) == *old(self),
            final(commands)@ == old(commands)@ + stop_commands(),
    {
        Self::dac_digi_trigger_output(false, commands);
        commands.push(Command::StopTransfer);
        Self::dac_digi_enable_dma(false, commands);
    }

    /// The DMA channel.
    pub fn tx(&mut self) -> (tx: &mut ChannelTx<Dm>)
        ensures
            *tx == old(self).tx_channel(),
            final(self).tx_channel() == *final(tx),
            final(self).tx_chain() == old(self).tx_chain(),
            final(self).config() == old(self).config(),
    {
        &mut self.tx_channel
    }

    /// The descriptors.
    pub fn chain(&mut self) -> (chain: &mut DescriptorChain)
        ensures
            *chain == old(self).tx_chain(),
            final(self).tx_chain() == *final(chain),
            final(self).tx_channel() == old(self).tx_channel(),
            final(self).config() == old(self).config(),
    {
        &mut self.tx_chain
    }

    /// Ends the driver: the clock of SPI3 and the DMA channel are given back.
    pub fn release(self, commands: &mut Vec<Command>)
        ensures
            final(commands)@ == old(commands)@ + release_commands(self.tx_channel().channel()),
    {
        self.spi3_guard.release(commands);
        self.tx_channel.close(commands);
    }
}

/// Shows that the descriptors for a transfer of kind `K` were requested.
pub struct Requested<K> {
    kind: PhantomData<K>,
}

/// A transfer whose descriptors are being filled.
pub struct TxStart<'t, 'd, Dm, K> where Dm: DriverMode {
    /// The driver.
    pub instance: &'t mut DacContinuousTx<'d, Dm>,
    /// Evidence of the step that was taken; only this module makes it.
    pub token: Requested<K>,
}

impl<'t, 'd, Dm, K> TxStart<'t, 'd, Dm, K> where Dm: DriverMode {
    /// Second step of a transfer: starts the channel, unless the descriptors could not be
    /// filled.
    ///
    /// The end-of-frame interrupt is enabled so that a circular transfer can tell its progress.
    /// Descriptors are not written back, which the channel of SPI3 does not support.
    pub fn chain_filled(
        self,
        filled: Result<(), DmaError>,
        commands: &mut Vec<Command>,
    ) -> (r: Result<TxLaunch<'t, 'd, Dm, K>, Error>)
        ensures
            r is Ok <==> filled is Ok,
            r matches Ok(launch) ==> {
                &&& *launch.instance == *old(self.instance)
                &&& *final(self.instance) == *final(launch.instance)
                &&& final(commands)@ == old(commands)@ + launch_commands(old(self.instance).tx_chain())
            },
            r matches Err(e) ==> {
                &&& e == Error::Dma(filled->Err_0)
                &&& *final(self.instance) == *old(self.instance)
                &&& final(commands)@ == old(commands)@
            },
    {
        match filled {
            Ok(()) => {},
            Err(e) => {
                return Err(Error::from(e));
            },
        }
        let eof = DmaTxInterrupts::only(DmaTxInterrupt::Eof);
        proof {
            assert(eof@.contains(DmaTxInterrupt::Eof));
            assert(!eof@.contains(DmaTxInterrupt::TotalEof));
            assert(!eof@.contains(DmaTxInterrupt::DescriptorError));
            assert(!eof@.contains(DmaTxInterrupt::Done));
        }
        commands.push(Command::ListenOut(eof));
        commands.push(Command::UseDefaultBurst);
        commands.push(Command::SetDescriptorBurst(true));
        commands.push(Command::SetCheckOwner(Some(false)));
        commands.push(Command::SetAutoWriteBack(false));
        commands.push(Command::Fence);
        commands.push(Command::ClearInterrupts);
        commands.push(Command::ResetChannel);
        commands.push(Command::SetLinkAddr(self.instance.tx_chain.first));
        commands.push(Command::SetPeripheral(DmaPeripheral::Spi3));
        commands.push(Command::StartChannel);
        Ok(TxLaunch { instance: self.instance, token: Started { kind: PhantomData } })
    }
}

/// Shows that the channel was started for a transfer of kind `K`.
pub struct Started<K> {
    kind: PhantomData<K>,
}

/// A transfer whose channel has been started.
pub struct TxLaunch<'t, 'd, Dm, K> where Dm: DriverMode {
    /// The driver.
    pub instance: &'t mut DacContinuousTx<'d, Dm>,
    /// Evidence of the step that was taken; only this module makes it.
    pub token: Started<K>,
}

impl<'t, 'd, Dm, K> TxLaunch<'t, 'd, Dm, K> where Dm: DriverMode {
    /// Last step of a transfer: checks the interrupts that are pending after the channel was
    /// started. The driver does not wait for the channel to deliver data, which could take
    /// forever; a rejected descriptor shows in the interrupts.
    pub fn launched(
        self,
        pending: DmaTxInterrupts,
    ) -> (r: Result<DmaTransfer<'t, 'd, Dm, K>, Error>)
        ensures
            r is Err <==> pending@.contains(DmaTxInterrupt::DescriptorError),
            r matches Ok(transfer) ==> {
                &&& *transfer.instance == *old(self.instance)
                &&& *final(self.instance) == *final(transfer.instance)
            },
            r matches Err(e) ==> {
                &&& e == Error::Dma(DmaError::DescriptorError)
                &&& *final(self.instance) == *old(self.instance)
            },
    {
        if pending.contains(DmaTxInterrupt::DescriptorError) {
            return Err(Error::Dma(DmaError::DescriptorError));
        }
        Ok(DmaTransfer { instance: self.instance, token: Running { kind: PhantomData } })
    }
}

/// The kind of a transfer that goes on until it is stopped.
pub struct Circular;

/// The kind of a transfer that sends its buffer once.
pub struct Single;

/// Shows that a transfer of kind `K` was started without error.
pub struct Running<K> {
    kind: PhantomData<K>,
}

/// A running transfer of kind `K`.
pub struct DmaTransfer<'t, 'd, Dm, K> where Dm: DriverMode {
    /// The driver.
    pub instance: &'t mut DacContinuousTx<'d, Dm>,
    /// Evidence of the step that was taken; only this module makes it.
    pub token: Running<K>,
}

/// A running circular transfer.
pub type DmaTransferTxCircular<'t, 'd, Dm> = DmaTransfer<'t, 'd, Dm, Circular>;

/// A running single-shot transfer.
pub type DmaTransferTx<'t, 'd, Dm> = DmaTransfer<'t, 'd, Dm, Single>;

} // verus!
