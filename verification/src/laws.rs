//! What the drivers' commands do to the hardware.
use crate::clock_plan::{clock_plan, is_supported, law_plan_fits_registers, ClockPlan};
use crate::command::Command;
use crate::continuous_dma::{
    claim_commands, configure_commands, eof_only, launch_commands, release_commands,
    start_commands, stop_commands,
};
use crate::dac::{setup_commands, write_commands};
use crate::device::{law_run_in_parts, law_run_step, run, Channel, Controller, Device, Divider, Pad};
use crate::dma::{AnySpiDmaChannel, DescriptorChain, DmaPeripheral, DmaTxInterrupt, ReadBuffer};
use crate::system::Chip;
use vstd::prelude::*;

verus! {

/// Setting a channel up makes its pin analog, powers it and, on the ESP32-S2, opens the clock
/// gate. Its value and its source stay, and so does everything else.
pub proof fn law_setup(d: Device, chip: Chip, index: usize, gpio: u8)
    requires
        d.wf(),
        index < 2,
    ensures
        run(d, setup_commands(chip, index, gpio)) == (Device {
            analog: d.analog.insert(gpio),
            clock_gate: d.clock_gate || chip == Chip::Esp32s2,
            pads: d.pads.update(index as int, Pad { powered: true, ..d.pads[index as int] }),
            ..d
        }),
{
    let all = setup_commands(chip, index, gpio);
    law_run_step(d, all, 0);
    law_run_step(d, all, 1);
    if chip == Chip::Esp32s2 {
        law_run_step(d, all, 2);
    }
}

/// A write puts the value into the pad register of its channel and makes that register the
/// source. Nothing else changes.
pub proof fn law_write(d: Device, index: usize, value: u8)
    requires
        d.wf(),
        index < 2,
    ensures
        run(d, write_commands(index, value)) == d.with_pad(
            index,
            Pad { cosine: false, value, ..d.pads[index as int] },
        ),
{
    let all = write_commands(index, value);
    law_run_step(d, all, 0);
    law_run_step(d, all, 1);
    let pad = Pad { cosine: false, ..d.pads[index as int] };
    assert(d.with_pad(index, pad).with_pad(index, Pad { value, ..pad }) =~= d.with_pad(
        index,
        Pad { value, ..pad },
    ));
}

/// After a channel was set up, a write puts out `vdd * value / 256`.
pub proof fn law_output_voltage(
    d: Device,
    chip: Chip,
    index: usize,
    gpio: u8,
    value: u8,
    vdd: nat,
)
    requires
        d.wf(),
        index < 2,
    ensures
        run(
            d,
            setup_commands(chip, index, gpio) + write_commands(index, value),
        ).output_in_256ths(index, vdd) == Some(vdd * value as nat),
{
    law_setup(d, chip, index, gpio);
    law_run_in_parts(d, setup_commands(chip, index, gpio), write_commands(index, value));
    law_write(run(d, setup_commands(chip, index, gpio)), index, value);
}

/// The voltages of the values `0..=255` start at zero, rise with the value and stay below the
/// supply.
pub proof fn law_output_range(d: Device, index: usize, low: u8, high: u8, vdd: nat)
    requires
        d.wf(),
        index < 2,
        d.pads[index as int].powered,
        low < high,
        0 < vdd,
    ensures
        ({
            let out = |value: u8|
                run(d, write_commands(index, value)).output_in_256ths(index, vdd);
            &&& out(0) == Some(0nat)
            &&& out(low) is Some
            &&& out(high) is Some
            &&& out(low)->0 < out(high)->0 < 256 * vdd
        }),
{
    law_write(d, index, 0);
    law_write(d, index, low);
    law_write(d, index, high);
    assert(vdd * 0 == 0 && vdd * low < vdd * high < 256 * vdd) by (nonlinear_arith)
        requires
            0 <= low < high < 256,
            0 < vdd,
    ;
}

/// Of two writes to one channel the last one counts.
pub proof fn law_last_write_wins(d: Device, index: usize, first: u8, last: u8)
    requires
        d.wf(),
        index < 2,
    ensures
        run(d, write_commands(index, first) + write_commands(index, last)) == run(
            d,
            write_commands(index, last),
        ),
{
    law_run_in_parts(d, write_commands(index, first), write_commands(index, last));
    law_write(d, index, first);
    law_write(run(d, write_commands(index, first)), index, last);
    law_write(d, index, last);
    assert(run(run(d, write_commands(index, first)), write_commands(index, last)) =~= run(
        d,
        write_commands(index, last),
    ));
}

/// The two channels do not disturb each other: a write leaves the other channel alone, and the
/// order of writes to different channels does not matter.
pub proof fn law_channels_are_independent(d: Device, i: usize, v: u8, j: usize, w: u8)
    requires
        d.wf(),
        i < 2,
        j < 2,
        i != j,
    ensures
        run(d, write_commands(i, v)).pads[j as int] == d.pads[j as int],
        run(d, write_commands(i, v) + write_commands(j, w)) == run(
            d,
            write_commands(j, w) + write_commands(i, v),
        ),
{
    law_run_in_parts(d, write_commands(i, v), write_commands(j, w));
    law_run_in_parts(d, write_commands(j, w), write_commands(i, v));
    law_write(d, i, v);
    law_write(d, j, w);
    law_write(run(d, write_commands(i, v)), j, w);
    law_write(run(d, write_commands(j, w)), i, v);
    assert(run(run(d, write_commands(i, v)), write_commands(j, w)) =~= run(
        run(d, write_commands(j, w)),
        write_commands(i, v),
    ));
}

/// Taking hold of the hardware sets channel 1 up with pin 17, makes the pad register its source,
/// opens the DMA channel and claims the clock of SPI3. The digital controller and the settings of
/// the DMA channel stay as they are.
pub proof fn law_claim(d: Device, dma: AnySpiDmaChannel)
    requires
        d.wf(),
    ensures
        run(d, claim_commands(dma)) == (Device {
            analog: d.analog.insert(17),
            clock_gate: true,
            pads: d.pads.update(0, Pad { powered: true, cosine: false, ..d.pads[0] }),
            spi3_claims: d.spi3_claims + 1,
            open_channels: d.open_channels.insert(dma),
            ..d
        }),
{
    let setup = setup_commands(Chip::Esp32s2, 0, 17);
    let rest = claim_commands(dma).skip(3);
    assert(claim_commands(dma) == setup + rest);
    law_setup(d, Chip::Esp32s2, 0, 17);
    law_run_in_parts(d, setup, rest);
    law_run_step(run(d, setup), rest, 0);
    law_run_step(run(d, setup), rest, 1);
    law_run_step(run(d, setup), rest, 2);
    assert(run(run(d, setup), rest) =~= (Device {
        analog: d.analog.insert(17),
        clock_gate: true,
        pads: d.pads.update(0, Pad { powered: true, cosine: false, ..d.pads[0] }),
        spi3_claims: d.spi3_claims + 1,
        open_channels: d.open_channels.insert(dma),
        ..d
    }));
}

/// Configuring writes the planned clock and the mode, ends the resets and connects the digital
/// controller to the DMA channel. The triggers and all other hardware stay as they are.
pub proof fn law_configure(d: Device, plan: ClockPlan, invert_clock: bool, is_alternate: bool)
    ensures
        run(d, configure_commands(plan, invert_clock, is_alternate)) == d.with_controller(
            Controller {
                dig_force: true,
                trans: true,
                clk_inv: invert_clock,
                alter_mode: is_alternate,
                timer_target: plan.interval as u16,
                timer_en: d.controller.timer_en,
                reset_fifo: false,
                rst: false,
                sar_clk_gated: true,
                fifo_holds_old: false,
                state_is_old: false,
                divider: Divider {
                    num: (plan.div.integer - 1) as u8,
                    b: plan.div.denominator as u8,
                    a: plan.div.numerator as u8,
                    clk_sel: 2,
                },
            },
        ),
{
    let all = configure_commands(plan, invert_clock, is_alternate);
    law_run_step(d, all, 0);
    law_run_step(d, all, 1);
    law_run_step(d, all, 2);
    law_run_step(d, all, 3);
    law_run_step(d, all, 4);
    law_run_step(d, all, 5);
    law_run_step(d, all, 6);
    law_run_step(d, all, 7);
    law_run_step(d, all, 8);
    law_run_step(d, all, 9);
    law_run_step(d, all, 10);
}

/// After configuring for a supported frequency, the registers hold the planned clock without
/// loss.
pub proof fn law_configured_clock(
    d: Device,
    apb_hz: u32,
    freq_hz: u32,
    invert_clock: bool,
    is_alternate: bool,
)
    requires
        is_supported(apb_hz as int, freq_hz as int, is_alternate),
    ensures
        ({
            let plan = clock_plan(apb_hz as int, freq_hz as int, is_alternate);
            let con = run(d, configure_commands(plan, invert_clock, is_alternate)).controller;
            &&& con.timer_target == plan.interval
            &&& con.divider.num + 1 == plan.div.integer
            &&& con.divider.b == plan.div.denominator
            &&& con.divider.a == plan.div.numerator
        }),
{
    law_plan_fits_registers(apb_hz, freq_hz, is_alternate);
    law_configure(
        d,
        clock_plan(apb_hz as int, freq_hz as int, is_alternate),
        invert_clock,
        is_alternate,
    );
}

/// Ending a driver gives one claim on SPI3 and the DMA channel back and changes nothing else.
pub proof fn law_release(d: Device, dma: AnySpiDmaChannel)
    ensures
        run(d, release_commands(dma)) == (Device {
            spi3_claims: d.spi3_claims - 1,
            open_channels: d.open_channels.remove(dma),
            ..d
        }),
{
    let all = release_commands(dma);
    law_run_step(d, all, 0);
    law_run_step(d, all, 1);
}

/// A driver that cannot be configured leaves the digital controller, the DMA channel and the
/// claims on SPI3 as they were. Channel 1 stays set up.
pub proof fn law_rejected_configuration(d: Device, dma: AnySpiDmaChannel)
    requires
        d.wf(),
    ensures
        run(d, claim_commands(dma) + release_commands(dma)) == (Device {
            analog: d.analog.insert(17),
            clock_gate: true,
            pads: d.pads.update(0, Pad { powered: true, cosine: false, ..d.pads[0] }),
            open_channels: d.open_channels.remove(dma),
            ..d
        }),
{
    law_claim(d, dma);
    law_run_in_parts(d, claim_commands(dma), release_commands(dma));
    law_release(run(d, claim_commands(dma)), dma);
}

/// The first step of a transfer leaves the triggers on, the FIFO emptied and out of reset and the
/// descriptors requested. Whether the digital controller is connected does not change, nor does
/// whether the channel runs.
pub proof fn law_start(d: Device, chain: DescriptorChain, circular: bool, buffer: ReadBuffer)
    ensures
        run(d, start_commands(chain, circular, buffer)) == d.with_controller(
            Controller {
                timer_en: true,
                reset_fifo: false,
                fifo_holds_old: false,
                ..d.controller
            },
        ).with_channel(
            Channel { requested: Some((chain, circular, buffer)), fenced: false, ..d.channel },
        ),
{
    let all = start_commands(chain, circular, buffer);
    law_run_step(d, all, 0);
    law_run_step(d, all, 1);
    law_run_step(d, all, 2);
    law_run_step(d, all, 3);
    law_run_step(d, all, 4);
}

/// Starting the channel enables the end-of-frame interrupt, points the channel at the first
/// descriptor and at SPI3, and sets it running without owner checks and write-back.
pub proof fn law_launch(d: Device, chain: DescriptorChain)
    ensures
        run(d, launch_commands(chain)) == d.with_channel(
            Channel {
                requested: d.channel.requested,
                listening: d.channel.listening.insert(DmaTxInterrupt::Eof),
                default_burst: true,
                descriptor_burst: true,
                check_owner: Some(false),
                auto_write_back: false,
                link_addr: chain.first,
                peripheral: Some(DmaPeripheral::Spi3),
                fenced: true,
                old_interrupts: Set::empty(),
                is_reset: false,
                running: true,
            },
        ),
{
    let all = launch_commands(chain);
    law_run_step(d, all, 0);
    law_run_step(d, all, 1);
    law_run_step(d, all, 2);
    law_run_step(d, all, 3);
    law_run_step(d, all, 4);
    law_run_step(d, all, 5);
    law_run_step(d, all, 6);
    law_run_step(d, all, 7);
    law_run_step(d, all, 8);
    law_run_step(d, all, 9);
    law_run_step(d, all, 10);
    assert(d.channel.listening.union(eof_only()@) =~= d.channel.listening.insert(
        DmaTxInterrupt::Eof,
    ));
}

/// Stopping leaves the triggers off, the channel stopped and the digital controller
/// disconnected. The channels of the DAC stay powered.
pub proof fn law_stop(d: Device)
    ensures
        run(d, stop_commands()) == d.with_controller(
            Controller { timer_en: false, dig_force: false, trans: false, ..d.controller },
        ).with_channel(Channel { running: false, ..d.channel }),
{
    let all = stop_commands();
    law_run_step(d, all, 0);
    law_run_step(d, all, 1);
    law_run_step(d, all, 2);
    law_run_step(d, all, 3);
}

/// What comes before the start of the channel does not touch the digital controller.
proof fn lemma_launch_keeps_controller(d: Device, chain: DescriptorChain)
    ensures
        run(d, launch_commands(chain).take(10)).controller == d.controller,
{
    let all = launch_commands(chain);
    law_run_step(d, all, 0);
    law_run_step(d, all, 1);
    law_run_step(d, all, 2);
    law_run_step(d, all, 3);
    law_run_step(d, all, 4);
    law_run_step(d, all, 5);
    law_run_step(d, all, 6);
    law_run_step(d, all, 7);
    law_run_step(d, all, 8);
    law_run_step(d, all, 9);
}

/// The FIFO is only reset while the triggers are off, and the triggers are on when the channel
/// starts.
pub proof fn law_start_order(
    d: Device,
    chain: DescriptorChain,
    circular: bool,
    buffer: ReadBuffer,
    i: int,
)
    requires
        0 <= i < start_commands(chain, circular, buffer).len() + launch_commands(chain).len(),
    ensures
        ({
            let all = start_commands(chain, circular, buffer) + launch_commands(chain);
            let before = run(d, all.take(i));
            &&& all[i] == Command::ResetFifo(true) ==> !before.controller.timer_en
            &&& all[i] == Command::StartChannel ==> before.controller.timer_en
                && !before.controller.reset_fifo
        }),
{
    let start = start_commands(chain, circular, buffer);
    let all = start + launch_commands(chain);
    if all[i] == Command::ResetFifo(true) {
        assert(i == 1);
        law_run_step(d, all, 0);
    } else if all[i] == Command::StartChannel {
        assert(i == 15);
        let prefix = launch_commands(chain).take(10);
        assert(all.take(i) == start + prefix);
        law_run_in_parts(d, start, prefix);
        law_start(d, chain, circular, buffer);
        lemma_launch_keeps_controller(run(d, start), chain);
    }
}

/// The triggers are off when the channel is stopped.
pub proof fn law_stop_order(d: Device, i: int)
    requires
        0 <= i < stop_commands().len(),
    ensures
        stop_commands()[i] == Command::StopTransfer ==> !run(
            d,
            stop_commands().take(i),
        ).controller.timer_en,
{
    if stop_commands()[i] == Command::StopTransfer {
        assert(i == 1);
        law_run_step(d, stop_commands(), 0);
    }
}

/// The driver keeps the clock of SPI3 claimed and the DMA channel open while it lives, through
/// transfers and stops, and gives exactly its own claim and its channel back when it ends.
pub proof fn law_spi3_claim(
    d: Device,
    dma: AnySpiDmaChannel,
    plan: ClockPlan,
    invert_clock: bool,
    chain: DescriptorChain,
    circular: bool,
    buffer: ReadBuffer,
)
    requires
        d.wf(),
    ensures
        ({
            let opened = run(
                d,
                claim_commands(dma) + configure_commands(plan, invert_clock, false),
            );
            let started = run(opened, start_commands(chain, circular, buffer));
            let launched = run(started, launch_commands(chain));
            let stopped = run(launched, stop_commands());
            &&& opened.spi3_claims == d.spi3_claims + 1
            &&& started.spi3_claims == d.spi3_claims + 1
            &&& launched.spi3_claims == d.spi3_claims + 1
            &&& stopped.spi3_claims == d.spi3_claims + 1
            &&& run(opened, release_commands(dma)).spi3_claims == d.spi3_claims
            &&& run(stopped, release_commands(dma)).spi3_claims == d.spi3_claims
            &&& opened.open_channels.contains(dma)
            &&& started.open_channels.contains(dma)
            &&& launched.open_channels.contains(dma)
            &&& stopped.open_channels.contains(dma)
            &&& !run(opened, release_commands(dma)).open_channels.contains(dma)
            &&& !run(stopped, release_commands(dma)).open_channels.contains(dma)
        }),
{
    let claimed = run(d, claim_commands(dma));
    let configure = configure_commands(plan, invert_clock, false);
    law_claim(d, dma);
    law_run_in_parts(d, claim_commands(dma), configure);
    law_configure(claimed, plan, invert_clock, false);
    let opened = run(claimed, configure);
    law_start(opened, chain, circular, buffer);
    let started = run(opened, start_commands(chain, circular, buffer));
    law_launch(started, chain);
    let launched = run(started, launch_commands(chain));
    law_stop(launched);
    law_release(opened, dma);
    law_release(run(launched, stop_commands()), dma);
}

/// A transfer of a new driver plays its buffer on channel 1: the channel is powered and takes its
/// values from the digital controller, which is clocked as configured, triggered, out of reset and
/// fed by the running DMA channel with the buffer that was given, over and over or once.
pub proof fn law_transfer(
    d: Device,
    dma: AnySpiDmaChannel,
    plan: ClockPlan,
    invert_clock: bool,
    chain: DescriptorChain,
    circular: bool,
    buffer: ReadBuffer,
)
    requires
        d.wf(),
    ensures
        ({
            let claimed = run(d, claim_commands(dma));
            let opened = run(claimed, configure_commands(plan, invert_clock, false));
            let started = run(opened, start_commands(chain, circular, buffer));
            let now = run(started, launch_commands(chain));
            let con = now.controller;
            &&& now.analog.contains(17)
            &&& now.clock_gate
            &&& now.pads[0] == (Pad { powered: true, cosine: false, ..d.pads[0] })
            &&& now.pads[1] == d.pads[1]
            &&& con.dig_force && con.trans && con.timer_en && con.sar_clk_gated
            &&& !con.rst && !con.reset_fifo && !con.fifo_holds_old && !con.state_is_old
            &&& !con.alter_mode
            &&& con.clk_inv == invert_clock
            &&& con.timer_target == plan.interval as u16
            &&& con.divider.num == (plan.div.integer - 1) as u8
            &&& con.divider.b == plan.div.denominator as u8
            &&& con.divider.a == plan.div.numerator as u8
            &&& con.divider.clk_sel == 2
            &&& now.channel.requested == Some((chain, circular, buffer))
            &&& now.channel.link_addr == chain.first
            &&& now.channel.peripheral == Some(DmaPeripheral::Spi3)
            &&& now.channel.listening.contains(DmaTxInterrupt::Eof)
            &&& now.channel.running
        }),
{
    let claimed = run(d, claim_commands(dma));
    law_claim(d, dma);
    law_configure(claimed, plan, invert_clock, false);
    let opened = run(claimed, configure_commands(plan, invert_clock, false));
    law_start(opened, chain, circular, buffer);
    law_launch(run(opened, start_commands(chain, circular, buffer)), chain);
}

} // verus!
