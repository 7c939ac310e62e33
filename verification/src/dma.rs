//! What the drivers share with the DMA controller.
use crate::command::Command;
use crate::system::DriverMode;
use core::marker::PhantomData;
use vstd::prelude::*;

verus! {

/// Why an address or a length does not suit the DMA controller.
#[derive(Debug, Clone, Copy, PartialEq, Eq, Structural)]
pub enum DmaAlignmentError {
    /// The address is not aligned.
    Address,
    /// The length is not aligned.
    Size,
}

/// Errors of the DMA controller and of its descriptors.
#[derive(Debug, Clone, Copy, PartialEq, Eq, Structural)]
pub enum DmaError {
    /// The buffer is not aligned.
    InvalidAlignment(DmaAlignmentError),
    /// The buffer needs more descriptors than there are.
    OutOfDescriptors,
    /// The controller rejected a descriptor.
    DescriptorError,
    /// There is less free space than data to push.
    Overflow,
    /// The buffer is too small.
    BufferTooSmall,
    /// The buffer or the descriptors lie in memory that the controller cannot reach.
    UnsupportedMemoryRegion,
    /// The chunk size is invalid.
    InvalidChunkSize,
    /// A circular transfer overran its buffer.
    Late,
}

/// Peripherals that a DMA channel can serve.
#[derive(Debug, Clone, Copy, PartialEq, Eq, Structural)]
pub enum DmaPeripheral {
    /// The SPI2 controller.
    Spi2,
    /// The SPI3 controller.
    Spi3,
}

/// The DMA channels of the SPI controllers.
#[derive(Debug, Clone, Copy, PartialEq, Eq, Structural)]
pub enum AnySpiDmaChannel {
    /// `DMA_SPI2`.
    Spi2,
    /// `DMA_SPI3`.
    Spi3,
}

impl AnySpiDmaChannel {
    /// Each channel serves the controller that it is named after.
    pub open spec fn serves(self, peripheral: DmaPeripheral) -> bool {
        match self {
            AnySpiDmaChannel::Spi2 => peripheral == DmaPeripheral::Spi2,
            AnySpiDmaChannel::Spi3 => peripheral == DmaPeripheral::Spi3,
        }
    }

    /// Whether the channel serves `peripheral`.
    pub fn is_compatible_with(&self, peripheral: DmaPeripheral) -> (r: bool)
        ensures
            r == self.serves(peripheral),
    {
        match *self {
            AnySpiDmaChannel::Spi2 => peripheral == DmaPeripheral::Spi2,
            AnySpiDmaChannel::Spi3 => peripheral == DmaPeripheral::Spi3,
        }
    }
}

/// Exactly the channel of SPI2 serves SPI2, and exactly that of SPI3 serves SPI3.
pub proof fn law_channel_serves(channel: AnySpiDmaChannel)
    ensures
        channel.serves(DmaPeripheral::Spi2) <==> channel == AnySpiDmaChannel::Spi2,
        channel.serves(DmaPeripheral::Spi3) <==> channel == AnySpiDmaChannel::Spi3,
{
}

/// Interrupts of the transmitting half of a DMA channel.
#[derive(Debug, Clone, Copy, PartialEq, Eq, Structural)]
pub enum DmaTxInterrupt {
    /// All data of a list of descriptors was sent.
    TotalEof,
    /// A descriptor was rejected.
    DescriptorError,
    /// The data of a descriptor that ends a frame was sent.
    Eof,
    /// The data of a descriptor was sent.
    Done,
}

/// A set of interrupts.
#[derive(Debug, Clone, Copy, PartialEq, Eq, Structural)]
pub struct DmaTxInterrupts {
    /// Whether [`DmaTxInterrupt::TotalEof`] is in the set.
    pub total_eof: bool,
    /// Whether [`DmaTxInterrupt::DescriptorError`] is in the set.
    pub descriptor_error: bool,
    /// Whether [`DmaTxInterrupt::Eof`] is in the set.
    pub eof: bool,
    /// Whether [`DmaTxInterrupt::Done`] is in the set.
    pub done: bool,
}

impl View for DmaTxInterrupts {
    type V = Set<DmaTxInterrupt>;

    open spec fn view(&self) -> Set<DmaTxInterrupt> {
        Set::new(
            |i: DmaTxInterrupt|
                match i {
                    DmaTxInterrupt::TotalEof => self.total_eof,
                    DmaTxInterrupt::DescriptorError => self.descriptor_error,
                    DmaTxInterrupt::Eof => self.eof,
                    DmaTxInterrupt::Done => self.done,
                },
        )
    }
}

/// A set holds an interrupt exactly where the field that is named after it says so.
pub proof fn law_interrupt_set(set: DmaTxInterrupts)
    ensures
        set@.contains(DmaTxInterrupt::TotalEof) <==> set.total_eof,
        set@.contains(DmaTxInterrupt::DescriptorError) <==> set.descriptor_error,
        set@.contains(DmaTxInterrupt::Eof) <==> set.eof,
        set@.contains(DmaTxInterrupt::Done) <==> set.done,
{
}

impl DmaTxInterrupts {
    /// The set that holds `interrupt` alone.
    pub fn only(interrupt: DmaTxInterrupt) -> (r: Self)
        ensures
            r@ == Set::<DmaTxInterrupt>::empty().insert(interrupt),
    {
        DmaTxInterrupts {
            total_eof: interrupt == DmaTxInterrupt::TotalEof,
            descriptor_error: interrupt == DmaTxInterrupt::DescriptorError,
            eof: interrupt == DmaTxInterrupt::Eof,
            done: interrupt == DmaTxInterrupt::Done,
        }
    }

    /// Whether `interrupt` is in the set.
    pub fn contains(&self, interrupt: DmaTxInterrupt) -> (r: bool)
        ensures
            r == self@.contains(interrupt),
    {
        match interrupt {
            DmaTxInterrupt::TotalEof => self.total_eof,
            DmaTxInterrupt::DescriptorError => self.descriptor_error,
            DmaTxInterrupt::Eof => self.eof,
            DmaTxInterrupt::Done => self.done,
        }
    }
}

/// A buffer to send, by its address and its length in bytes.
#[derive(Debug, Clone, Copy, PartialEq, Eq, Structural)]
pub struct ReadBuffer {
    /// Address of the first byte.
    pub ptr: u32,
    /// Number of bytes.
    pub len: usize,
}

/// Descriptors for transfers, by the address of the first one and their number.
#[derive(Debug, Clone, Copy, PartialEq, Eq, Structural)]
pub struct DescriptorChain {
    /// Address of the first descriptor.
    pub first: u32,
    /// Number of descriptors.
    pub count: usize,
}

/// The transmitting half of a DMA channel.
pub struct ChannelTx<Dm> where Dm: DriverMode {
    channel: AnySpiDmaChannel,
    _mode: PhantomData<Dm>,
}

impl<Dm> ChannelTx<Dm> where Dm: DriverMode {
    /// The channel it belongs to.
    pub closed spec fn channel(&self) -> AnySpiDmaChannel {
        self.channel
    }

    /// Opens `channel` for sending.
    pub fn new(channel: AnySpiDmaChannel, commands: &mut Vec<Command>) -> (tx: Self)
        ensures
            tx.channel() == channel,
            final(commands)@ == old(commands)@.push(Command::OpenChannel(channel)),
    {
        commands.push(Command::OpenChannel(channel));
        ChannelTx { channel, _mode: PhantomData }
    }

    /// Gives the channel back.
    pub fn close(self, commands: &mut Vec<Command>)
        ensures
            final(commands)@ == old(commands)@.push(Command::CloseChannel(self.channel())),
    {
        commands.push(Command::CloseChannel(self.channel));
    }
}

} // verus!
