//! What the drivers ask of the platform.
use crate::dma::{AnySpiDmaChannel, DescriptorChain, DmaPeripheral, DmaTxInterrupts, ReadBuffer};
use crate::system::Peripheral;
use vstd::prelude::*;

verus! {

/// One step for the platform to carry out. A step on a register reads it, changes the named
/// fields and writes it back, so that all other fields keep their values.
#[derive(Debug, Clone, Copy, PartialEq, Eq)]
pub enum Command {
    /// Make a pin analog.
    SetAnalog {
        /// Number of the pin.
        gpio: u8,
    },
    /// `SENS.sar_dac_ctrl1`: set `dac_clkgate_en`.
    EnableClockGate,
    /// `SENS.sar_dac_ctrl1`: write `dac_dig_force`.
    ForceDigital(bool),
    /// `SENS.sar_dac_ctrl1`: write `dac_clk_inv`.
    InvertClock(bool),
    /// `SENS.sar_dac_ctrl2`: clear `dac_cw_en` of a channel.
    ClearCosine {
        /// Index of the channel.
        index: usize,
    },
    /// `RTC_IO.pad_dac` of a channel: set `dac_xpd_force` and `xpd_dac`.
    PowerPad {
        /// Index of the channel.
        index: usize,
    },
    /// `RTC_IO.pad_dac` of a channel: write `dac`.
    WritePad {
        /// Index of the channel.
        index: usize,
        /// Value to convert.
        value: u8,
    },
    /// `APB_SARADC.clkm_conf`: write `clkm_div_num`, `clkm_div_b`, `clkm_div_a` and `clk_sel`.
    SetDivider {
        /// Integer part of the divider, less one.
        div_num: u8,
        /// Denominator of the fractional part.
        div_b: u8,
        /// Numerator of the fractional part.
        div_a: u8,
        /// Source of the clock.
        clk_sel: u8,
    },
    /// `APB_SARADC.ctrl`: set `sar_clk_gated`.
    GateSarClock,
    /// `APB_SARADC.apb_dac_ctrl`: write `trans`.
    ConnectDma(bool),
    /// `APB_SARADC.apb_dac_ctrl`: write `alter_mode`.
    SetAlternate(bool),
    /// `APB_SARADC.apb_dac_ctrl`: write `timer_target`.
    SetTimerTarget(u16),
    /// `APB_SARADC.apb_dac_ctrl`: write `timer_en`.
    EnableTimer(bool),
    /// `APB_SARADC.apb_dac_ctrl`: write `reset_fifo`.
    ResetFifo(bool),
    /// `APB_SARADC.apb_dac_ctrl`: write `rst`.
    ResetController(bool),
    /// Claim the clock of a peripheral.
    AcquirePeripheral(Peripheral),
    /// Give the claim on the clock of a peripheral up.
    ReleasePeripheral(Peripheral),
    /// Open a DMA channel and keep its transmitting half.
    OpenChannel(AnySpiDmaChannel),
    /// Give a DMA channel back.
    CloseChannel(AnySpiDmaChannel),
    /// Fill the descriptors so that they send the buffer once, or over and over. The platform
    /// reports how it went.
    FillForTx {
        /// The descriptors to fill.
        chain: DescriptorChain,
        /// Whether the last descriptor leads back to the first.
        circular: bool,
        /// The buffer to send.
        buffer: ReadBuffer,
    },
    /// Enable interrupts of the channel.
    ListenOut(DmaTxInterrupts),
    /// Use the default burst mode for data.
    UseDefaultBurst,
    /// Whether descriptors are fetched in bursts.
    SetDescriptorBurst(bool),
    /// Whether the channel checks who owns a descriptor, where it can be told.
    SetCheckOwner(Option<bool>),
    /// Whether the channel hands descriptors back by itself.
    SetAutoWriteBack(bool),
    /// Keep memory accesses before this point from moving behind it, and the reverse.
    Fence,
    /// Clear all interrupts of the channel.
    ClearInterrupts,
    /// Reset the channel.
    ResetChannel,
    /// Tell the channel where the first descriptor is.
    SetLinkAddr(u32),
    /// Tell the channel which peripheral it serves.
    SetPeripheral(DmaPeripheral),
    /// Start the channel.
    StartChannel,
    /// Stop the channel.
    StopTransfer,
}

} // verus!
