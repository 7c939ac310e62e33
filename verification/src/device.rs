//! What the commands do: a model of the hardware, for the proofs.
use crate::command::Command;
use crate::dma::{AnySpiDmaChannel, DescriptorChain, DmaPeripheral, DmaTxInterrupt, ReadBuffer};
use crate::system::Peripheral;
use vstd::prelude::*;

verus! {

/// A DAC channel.
pub struct Pad {
    /// Whether the channel is powered by `dac_xpd_force` and `xpd_dac`.
    pub powered: bool,
    /// Whether the cosine generator is the source, instead of the pad register.
    pub cosine: bool,
    /// The value in the pad register.
    pub value: u8,
}

/// The divider of the digital controller.
pub struct Divider {
    /// `clkm_div_num`.
    pub num: u8,
    /// `clkm_div_b`.
    pub b: u8,
    /// `clkm_div_a`.
    pub a: u8,
    /// `clk_sel`.
    pub clk_sel: u8,
}

/// The digital controller of the DAC.
pub struct Controller {
    /// `dac_dig_force`.
    pub dig_force: bool,
    /// `trans`.
    pub trans: bool,
    /// `dac_clk_inv`.
    pub clk_inv: bool,
    /// `alter_mode`.
    pub alter_mode: bool,
    /// `timer_target`.
    pub timer_target: u16,
    /// `timer_en`.
    pub timer_en: bool,
    /// `reset_fifo`.
    pub reset_fifo: bool,
    /// `rst`.
    pub rst: bool,
    /// `sar_clk_gated`.
    pub sar_clk_gated: bool,
    /// Whether the FIFO may hold samples from before its last reset.
    pub fifo_holds_old: bool,
    /// Whether the controller may be in a state from before its last reset.
    pub state_is_old: bool,
    /// The divider.
    pub divider: Divider,
}

/// The DMA channel.
pub struct Channel {
    /// What the descriptors were last asked to send, and whether over and over.
    pub requested: Option<(DescriptorChain, bool, ReadBuffer)>,
    /// The enabled interrupts.
    pub listening: Set<DmaTxInterrupt>,
    /// Whether the burst mode for data is the default one.
    pub default_burst: bool,
    /// Whether descriptors are fetched in bursts.
    pub descriptor_burst: bool,
    /// Whether the owner of a descriptor is checked.
    pub check_owner: Option<bool>,
    /// Whether descriptors are handed back.
    pub auto_write_back: bool,
    /// Address of the first descriptor.
    pub link_addr: u32,
    /// The peripheral that is served.
    pub peripheral: Option<DmaPeripheral>,
    /// Whether the descriptors that were filled last are sure to be in memory.
    pub fenced: bool,
    /// The interrupts from before they were last cleared.
    pub old_interrupts: Set<DmaTxInterrupt>,
    /// Whether the channel was reset, and not started since.
    pub is_reset: bool,
    /// Whether the channel was started, and neither reset nor stopped since.
    pub running: bool,
}

/// The hardware that the drivers use.
#[verifier::ext_equal]
pub struct Device {
    /// The pins that are analog.
    pub analog: Set<u8>,
    /// `dac_clkgate_en`.
    pub clock_gate: bool,
    /// The two channels of the DAC.
    pub pads: Seq<Pad>,
    /// The digital controller.
    pub controller: Controller,
    /// How many claims there are on the clock of SPI3.
    pub spi3_claims: int,
    /// The DMA channels that are open.
    pub open_channels: Set<AnySpiDmaChannel>,
    /// The DMA channel.
    pub channel: Channel,
}

impl Device {
    /// There are two channels.
    pub open spec fn wf(self) -> bool {
        self.pads.len() == 2
    }

    /// The same device with another channel `index`.
    pub open spec fn with_pad(self, index: usize, pad: Pad) -> Device {
        Device { pads: self.pads.update(index as int, pad), ..self }
    }

    /// The same device with another digital controller.
    pub open spec fn with_controller(self, controller: Controller) -> Device {
        Device { controller, ..self }
    }

    /// The same device with another DMA channel.
    pub open spec fn with_channel(self, channel: Channel) -> Device {
        Device { channel, ..self }
    }

    /// The voltage on channel `index`, in parts of 256, where the supply of the pads is `vdd`:
    /// a powered channel puts out `vdd * value / 256`. Nothing is said of a channel that is not
    /// powered or that follows the cosine generator.
    pub open spec fn output_in_256ths(self, index: usize, vdd: nat) -> Option<nat> {
        let pad = self.pads[index as int];
        if pad.powered && !pad.cosine {
            Some(vdd * pad.value as nat)
        } else {
            None
        }
    }
}

/// The device after one command.
pub open spec fn apply(d: Device, command: Command) -> Device {
    let pads = d.pads;
    let con = d.controller;
    let ch = d.channel;
    match command {
        Command::SetAnalog { gpio } => Device { analog: d.analog.insert(gpio), ..d },
        Command::EnableClockGate => Device { clock_gate: true, ..d },
        Command::ForceDigital(v) => d.with_controller(Controller { dig_force: v, ..con }),
        Command::InvertClock(v) => d.with_controller(Controller { clk_inv: v, ..con }),
        Command::ClearCosine { index } => d.with_pad(
            index,
            Pad { cosine: false, ..pads[index as int] },
        ),
        Command::PowerPad { index } => d.with_pad(
            index,
            Pad { powered: true, ..pads[index as int] },
        ),
        Command::WritePad { index, value } => d.with_pad(index, Pad { value, ..pads[index as int] }),
        Command::SetDivider { div_num, div_b, div_a, clk_sel } => d.with_controller(
            Controller { divider: Divider { num: div_num, b: div_b, a: div_a, clk_sel }, ..con },
        ),
        Command::GateSarClock => d.with_controller(Controller { sar_clk_gated: true, ..con }),
        Command::ConnectDma(v) => d.with_controller(Controller { trans: v, ..con }),
        Command::SetAlternate(v) => d.with_controller(Controller { alter_mode: v, ..con }),
        Command::SetTimerTarget(v) => d.with_controller(Controller { timer_target: v, ..con }),
        Command::EnableTimer(v) => d.with_controller(Controller { timer_en: v, ..con }),
        Command::ResetFifo(v) => d.with_controller(
            Controller { reset_fifo: v, fifo_holds_old: con.fifo_holds_old && !v, ..con },
        ),
        Command::ResetController(v) => d.with_controller(
            Controller { rst: v, state_is_old: con.state_is_old && !v, ..con },
        ),
        Command::AcquirePeripheral(Peripheral::Spi3) => Device {
            spi3_claims: d.spi3_claims + 1,
            ..d
        },
        Command::ReleasePeripheral(Peripheral::Spi3) => Device {
            spi3_claims: d.spi3_claims - 1,
            ..d
        },
        Command::OpenChannel(dma) => Device {
            open_channels: d.open_channels.insert(dma),
            ..d
        },
        Command::CloseChannel(dma) => Device {
            open_channels: d.open_channels.remove(dma),
            ..d
        },
        Command::FillForTx { chain, circular, buffer } => d.with_channel(
            Channel { requested: Some((chain, circular, buffer)), fenced: false, ..ch },
        ),
        Command::ListenOut(interrupts) => d.with_channel(
            Channel { listening: ch.listening.union(interrupts@), ..ch },
        ),
        Command::UseDefaultBurst => d.with_channel(Channel { default_burst: true, ..ch }),
        Command::SetDescriptorBurst(v) => d.with_channel(Channel { descriptor_burst: v, ..ch }),
        Command::SetCheckOwner(v) => d.with_channel(Channel { check_owner: v, ..ch }),
        Command::SetAutoWriteBack(v) => d.with_channel(Channel { auto_write_back: v, ..ch }),
        Command::Fence => d.with_channel(Channel { fenced: true, ..ch }),
        Command::ClearInterrupts => d.with_channel(
            Channel { old_interrupts: Set::empty(), ..ch },
        ),
        Command::ResetChannel => d.with_channel(Channel { is_reset: true, running: false, ..ch }),
        Command::SetLinkAddr(v) => d.with_channel(Channel { link_addr: v, ..ch }),
        Command::SetPeripheral(v) => d.with_channel(Channel { peripheral: Some(v), ..ch }),
        Command::StartChannel => d.with_channel(Channel { is_reset: false, running: true, ..ch }),
        Command::StopTransfer => d.with_channel(Channel { running: false, ..ch }),
    }
}

/// The device after a list of commands.
pub open spec fn run(d: Device, commands: Seq<Command>) -> Device
    decreases commands.len(),
{
    if commands.len() == 0 {
        d
    } else {
        run(apply(d, commands[0]), commands.drop_first())
    }
}

/// A list of commands is carried out by carrying out its two parts one after the other.
pub proof fn law_run_in_parts(d: Device, first: Seq<Command>, second: Seq<Command>)
    ensures
        run(d, first + second) == run(run(d, first), second),
    decreases first.len(),
{
    if first.len() == 0 {
        assert(first + second == second);
    } else {
        assert((first + second).drop_first() == first.drop_first() + second);
        law_run_in_parts(apply(d, first[0]), first.drop_first(), second);
    }
}

/// A list of commands is carried out one after the other.
pub proof fn law_run_step(d: Device, commands: Seq<Command>, k: int)
    requires
        0 <= k < commands.len(),
    ensures
        run(d, commands.take(0)) == d,
        run(d, commands.take(k + 1)) == apply(run(d, commands.take(k)), commands[k]),
        run(d, commands.take(commands.len() as int)) == run(d, commands),
{
    let last = seq![commands[k]];
    assert(commands.take(k + 1) == commands.take(k) + last);
    law_run_in_parts(d, commands.take(k), last);
    let before = run(d, commands.take(k));
    assert(last.drop_first().len() == 0);
    assert(run(before, last) == run(apply(before, last[0]), last.drop_first()));
    assert(commands.take(commands.len() as int) == commands);
}

} // verus!
