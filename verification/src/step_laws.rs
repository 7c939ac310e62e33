//! What holds while the drivers' commands are carried out, after any number of them.
use crate::clock_plan::ClockPlan;
use crate::command::Command;
use crate::continuous_dma::{
    claim_commands, configure_commands, eof_only, launch_commands, release_commands,
    start_commands, stop_commands,
};
use crate::dac::{setup_commands, write_commands};
use crate::device::{law_run_in_parts, law_run_step, run, Channel, Controller, Device, Divider, Pad};
use crate::dma::{AnySpiDmaChannel, DescriptorChain, DmaPeripheral, DmaTxInterrupt, ReadBuffer};
use crate::laws::law_start;
use crate::system::Chip;
use vstd::prelude::*;

verus! {

/// While a channel is set up, its value and its source stay, and so does everything but its pin,
/// the clock gate and its power. It is powered last, when its pin is analog and, on the ESP32-S2,
/// its clock runs. Each of these is done once.
pub proof fn law_setup_steps(d: Device, chip: Chip, index: usize, gpio: u8, i: int)
    requires
        d.wf(),
        index < 2,
        0 <= i <= setup_commands(chip, index, gpio).len(),
    ensures
        ({
            let all = setup_commands(chip, index, gpio);
            let now = run(d, all.take(i));
            let powered = Pad { powered: true, ..d.pads[index as int] };
            &&& all.len() == if chip == Chip::Esp32s2 {
                3nat
            } else {
                2nat
            }
            &&& now == (Device {
                analog: now.analog,
                clock_gate: now.clock_gate,
                pads: now.pads,
                ..d
            })
            &&& now.analog == d.analog || now.analog == d.analog.insert(gpio)
            &&& now.clock_gate == d.clock_gate || (now.clock_gate && chip == Chip::Esp32s2)
            &&& now.pads == d.pads || now.pads == d.pads.update(index as int, powered)
            &&& now.clock_gate != d.clock_gate ==> now.analog.contains(gpio)
            &&& now.pads != d.pads ==> now.analog.contains(gpio)
            &&& now.pads != d.pads && chip == Chip::Esp32s2 ==> now.clock_gate
        }),
{
    let all = setup_commands(chip, index, gpio);
    law_run_step(d, all, 0);
    law_run_step(d, all, 1);
    if chip == Chip::Esp32s2 {
        law_run_step(d, all, 2);
        assert(i == 0 || i == 1 || i == 2 || i == 3);
    } else {
        assert(i == 0 || i == 1 || i == 2);
    }
}

/// While a value is written, the pad register holds the value from before or the one that is
/// written, and the cosine generator is off by the time that it changes. Nothing but the source
/// and the value of the channel changes. The source and the value are written once each.
pub proof fn law_write_steps(d: Device, index: usize, value: u8, i: int)
    requires
        d.wf(),
        index < 2,
        0 <= i <= write_commands(index, value).len(),
    ensures
        ({
            let all = write_commands(index, value);
            let old_pad = d.pads[index as int];
            let now = run(d, all.take(i));
            let pad = now.pads[index as int];
            &&& all.len() == 2
            &&& now == (Device { pads: now.pads, ..d })
            &&& now.pads == d.pads.update(index as int, pad)
            &&& pad.powered == old_pad.powered
            &&& pad.value == old_pad.value || pad.value == value
            &&& pad.cosine ==> pad == old_pad
            &&& i < all.len() && all[i] is WritePad ==> !pad.cosine && pad.value == old_pad.value
        }),
{
    let all = write_commands(index, value);
    law_run_step(d, all, 0);
    law_run_step(d, all, 1);
    assert(d.pads.update(index as int, d.pads[index as int]) =~= d.pads);
    assert(i == 0 || i == 1 || i == 2);
    let pad = Pad { cosine: false, ..d.pads[index as int] };
    assert(d.with_pad(index, pad).with_pad(index, Pad { value, ..pad }) =~= d.with_pad(
        index,
        Pad { value, ..pad },
    ));
}

/// While the driver takes hold of the hardware, channel 1 is set up first, then its source is
/// chosen, then the DMA channel is opened, then the clock of SPI3 is claimed. The value of the
/// channel, the other channel, the digital controller and the settings of the DMA channel stay.
pub proof fn law_claim_steps(d: Device, dma: AnySpiDmaChannel, i: int)
    requires
        d.wf(),
        0 <= i <= claim_commands(dma).len(),
    ensures
        ({
            let all = claim_commands(dma);
            let now = run(d, all.take(i));
            let ready = now.analog.contains(17) && now.clock_gate && now.pads[0].powered;
            &&& all.len() == 6
            &&& now.pads.len() == 2
            &&& now.pads[0].value == d.pads[0].value
            &&& now.pads[1] == d.pads[1]
            &&& now.controller == d.controller
            &&& now.channel == d.channel
            &&& now.spi3_claims == d.spi3_claims || now.spi3_claims == d.spi3_claims + 1
            &&& now.open_channels == d.open_channels || now.open_channels
                == d.open_channels.insert(dma)
            &&& now.pads[0].powered != d.pads[0].powered ==> now.analog.contains(17)
                && now.clock_gate
            &&& now.pads[0].cosine != d.pads[0].cosine ==> ready
            &&& now.open_channels != d.open_channels ==> ready && !now.pads[0].cosine
            &&& now.spi3_claims != d.spi3_claims ==> {
                &&& ready
                &&& !now.pads[0].cosine
                &&& now.open_channels.contains(dma)
            }
        }),
{
    let all = claim_commands(dma);
    law_run_step(d, all, 0);
    law_run_step(d, all, 1);
    law_run_step(d, all, 2);
    law_run_step(d, all, 3);
    law_run_step(d, all, 4);
    law_run_step(d, all, 5);
    assert(i == 0 || i == 1 || i == 2 || i == 3 || i == 4 || i == 5 || i == 6);
}

/// While a driver ends, its claim on SPI3 is given back before the DMA channel, and all else
/// stays.
pub proof fn law_release_steps(d: Device, dma: AnySpiDmaChannel, i: int)
    requires
        0 <= i <= release_commands(dma).len(),
    ensures
        ({
            let all = release_commands(dma);
            let now = run(d, all.take(i));
            &&& all.len() == 2
            &&& now == (Device {
                spi3_claims: now.spi3_claims,
                open_channels: now.open_channels,
                ..d
            })
            &&& now.spi3_claims == d.spi3_claims || now.spi3_claims == d.spi3_claims - 1
            &&& now.open_channels == d.open_channels || now.open_channels
                == d.open_channels.remove(dma)
            &&& now.open_channels != d.open_channels ==> now.spi3_claims == d.spi3_claims - 1
        }),
{
    let all = release_commands(dma);
    law_run_step(d, all, 0);
    law_run_step(d, all, 1);
    assert(i == 0 || i == 1 || i == 2);
}

/// Configuring a driver writes one register of the digital controller after the other and leaves
/// all others alone: the divider, its gate, its phase, the interval and the mode, then both edges
/// of the reset of the controller and both of the reset of its FIFO, then the two connections.
pub proof fn law_configure_steps(
    d: Device,
    plan: ClockPlan,
    invert_clock: bool,
    is_alternate: bool,
    i: int,
)
    requires
        0 <= i < configure_commands(plan, invert_clock, is_alternate).len(),
    ensures
        ({
            let all = configure_commands(plan, invert_clock, is_alternate);
            let before = run(d, all.take(i));
            let c = before.controller;
            let divider = Divider {
                num: (plan.div.integer - 1) as u8,
                b: plan.div.denominator as u8,
                a: plan.div.numerator as u8,
                clk_sel: 2,
            };
            &&& all.len() == 11
            &&& run(d, all.take(0)) == d
            &&& run(d, all.take(i + 1)) == before.with_controller(
                if i == 0 {
                    Controller { divider, ..c }
                } else if i == 1 {
                    Controller { sar_clk_gated: true, ..c }
                } else if i == 2 {
                    Controller { clk_inv: invert_clock, ..c }
                } else if i == 3 {
                    Controller { timer_target: plan.interval as u16, ..c }
                } else if i == 4 {
                    Controller { alter_mode: is_alternate, ..c }
                } else if i == 5 {
                    Controller { rst: true, state_is_old: false, ..c }
                } else if i == 6 {
                    Controller { rst: false, ..c }
                } else if i == 7 {
                    Controller { reset_fifo: true, fifo_holds_old: false, ..c }
                } else if i == 8 {
                    Controller { reset_fifo: false, ..c }
                } else if i == 9 {
                    Controller { dig_force: true, ..c }
                } else {
                    Controller { trans: true, ..c }
                },
            )
        }),
{
    law_run_step(d, configure_commands(plan, invert_clock, is_alternate), i);
}

/// When the digital controller is connected to the DMA channel, its clock and its mode are set,
/// both resets are over, and it is connected to the channels of the DAC. The triggers and all
/// other hardware are as before.
pub proof fn law_configured_when_connected(
    d: Device,
    plan: ClockPlan,
    invert_clock: bool,
    is_alternate: bool,
    i: int,
)
    requires
        0 <= i < configure_commands(plan, invert_clock, is_alternate).len(),
        configure_commands(plan, invert_clock, is_alternate)[i] is ConnectDma,
    ensures
        run(d, configure_commands(plan, invert_clock, is_alternate).take(i)) == d.with_controller(
            Controller {
                dig_force: true,
                trans: d.controller.trans,
                clk_inv: invert_clock,
                alter_mode: is_alternate,
                timer_target: plan.interval as u16,
                timer_en: d.controller.timer_en,
                reset_fifo: false,
                rst: false,
                sar_clk_gated: true,
                fifo_holds_old: false,
                state_is_old: false,
                divider: Divider {
                    num: (plan.div.integer - 1) as u8,
                    b: plan.div.denominator as u8,
                    a: plan.div.numerator as u8,
                    clk_sel: 2,
                },
            },
        ),
{
    let all = configure_commands(plan, invert_clock, is_alternate);
    assert(i == 10);
    law_run_step(d, all, 0);
    law_run_step(d, all, 1);
    law_run_step(d, all, 2);
    law_run_step(d, all, 3);
    law_run_step(d, all, 4);
    law_run_step(d, all, 5);
    law_run_step(d, all, 6);
    law_run_step(d, all, 7);
    law_run_step(d, all, 8);
    law_run_step(d, all, 9);
}

/// A transfer is made ready in five steps that leave all else alone: the triggers go off, the
/// FIFO is put into reset and taken out of it, the triggers go on, and the descriptors are asked
/// to send the buffer.
pub proof fn law_start_steps(
    d: Device,
    chain: DescriptorChain,
    circular: bool,
    buffer: ReadBuffer,
    i: int,
)
    requires
        0 <= i < start_commands(chain, circular, buffer).len(),
    ensures
        ({
            let all = start_commands(chain, circular, buffer);
            let before = run(d, all.take(i));
            let c = before.controller;
            &&& all.len() == 5
            &&& run(d, all.take(0)) == d
            &&& run(d, all.take(i + 1)) == if i == 0 {
                before.with_controller(Controller { timer_en: false, ..c })
            } else if i == 1 {
                before.with_controller(Controller { reset_fifo: true, fifo_holds_old: false, ..c })
            } else if i == 2 {
                before.with_controller(Controller { reset_fifo: false, ..c })
            } else if i == 3 {
                before.with_controller(Controller { timer_en: true, ..c })
            } else {
                before.with_channel(
                    Channel {
                        requested: Some((chain, circular, buffer)),
                        fenced: false,
                        ..before.channel
                    },
                )
            }
        }),
{
    law_run_step(d, start_commands(chain, circular, buffer), i);
}

/// The triggers go on when the FIFO is empty and out of reset, and they are on when the
/// descriptors are requested.
pub proof fn law_empty_when_triggered(
    d: Device,
    chain: DescriptorChain,
    circular: bool,
    buffer: ReadBuffer,
    i: int,
)
    requires
        0 <= i < start_commands(chain, circular, buffer).len(),
    ensures
        ({
            let all = start_commands(chain, circular, buffer);
            let before = run(d, all.take(i)).controller;
            &&& all[i] == Command::EnableTimer(true) || all[i] is FillForTx ==> !before.reset_fifo
                && !before.fifo_holds_old
            &&& all[i] == Command::EnableTimer(true) ==> !before.timer_en
            &&& all[i] is FillForTx ==> before.timer_en
        }),
{
    let all = start_commands(chain, circular, buffer);
    if all[i] == Command::EnableTimer(true) {
        assert(i == 3);
        law_run_step(d, all, 0);
        law_run_step(d, all, 1);
        law_run_step(d, all, 2);
    } else if all[i] is FillForTx {
        assert(i == 4);
        law_run_step(d, all, 0);
        law_run_step(d, all, 1);
        law_run_step(d, all, 2);
        law_run_step(d, all, 3);
    }
}

/// The DMA channel after `i` commands that start it.
spec fn launched_at(was: Channel, chain: DescriptorChain, i: int) -> Channel {
    Channel {
        requested: was.requested,
        listening: if i >= 1 {
            was.listening.insert(DmaTxInterrupt::Eof)
        } else {
            was.listening
        },
        default_burst: was.default_burst || i >= 2,
        descriptor_burst: was.descriptor_burst || i >= 3,
        check_owner: if i >= 4 {
            Some(false)
        } else {
            was.check_owner
        },
        auto_write_back: was.auto_write_back && i < 5,
        fenced: was.fenced || i >= 6,
        old_interrupts: if i >= 7 {
            Set::empty()
        } else {
            was.old_interrupts
        },
        is_reset: 8 <= i < 11 || (was.is_reset && i < 8),
        running: i >= 11 || (was.running && i < 8),
        link_addr: if i >= 9 {
            chain.first
        } else {
            was.link_addr
        },
        peripheral: if i >= 10 {
            Some(DmaPeripheral::Spi3)
        } else {
            was.peripheral
        },
    }
}

proof fn lemma_launch_at(d: Device, chain: DescriptorChain, i: int)
    requires
        0 <= i <= 11,
    ensures
        launch_commands(chain).len() == 11,
        run(d, launch_commands(chain).take(i)) == d.with_channel(
            launched_at(d.channel, chain, i),
        ),
    decreases i,
{
    let all = launch_commands(chain);
    if i == 0 {
        law_run_step(d, all, 0);
    } else {
        lemma_launch_at(d, chain, i - 1);
        law_run_step(d, all, i - 1);
        assert(d.channel.listening.union(eof_only()@) =~= d.channel.listening.insert(
            DmaTxInterrupt::Eof,
        ));
    }
}

/// While the channel is started, nothing but the channel changes, and each setting is the one
/// from before or the one that is meant. Interrupts and modes are set before the fence, the
/// fence comes before old interrupts are cleared, these are cleared before the channel is reset,
/// and its address and its peripheral are set after that. The channel starts last.
pub proof fn law_launch_steps(d: Device, chain: DescriptorChain, i: int)
    requires
        0 <= i <= launch_commands(chain).len(),
    ensures
        ({
            let all = launch_commands(chain);
            let now = run(d, all.take(i));
            let (was, new) = (d.channel, now.channel);
            let listening = new.listening.contains(DmaTxInterrupt::Eof);
            let bursts = listening && new.default_burst && new.descriptor_burst;
            let modes = bursts && new.check_owner == Some(false) && !new.auto_write_back;
            let cleared = modes && new.fenced && new.old_interrupts == Set::<DmaTxInterrupt>::empty();
            let linked = new.link_addr == chain.first;
            &&& all.len() == 11
            &&& now == d.with_channel(new)
            &&& new.requested == was.requested
            &&& new.listening == was.listening || new.listening == was.listening.insert(
                DmaTxInterrupt::Eof,
            )
            &&& new.default_burst == was.default_burst || (new.default_burst && listening)
            &&& new.descriptor_burst == was.descriptor_burst || (new.descriptor_burst && listening
                && new.default_burst)
            &&& new.check_owner == was.check_owner || (new.check_owner == Some(false) && bursts)
            &&& new.auto_write_back == was.auto_write_back || modes
            &&& new.fenced == was.fenced || (new.fenced && modes)
            &&& new.old_interrupts == was.old_interrupts || cleared
            &&& new.link_addr == was.link_addr || (linked && cleared)
            &&& new.peripheral == was.peripheral || (new.peripheral == Some(DmaPeripheral::Spi3)
                && linked && cleared)
            &&& new.is_reset != was.is_reset || new.running != was.running ==> cleared
            &&& new.link_addr != was.link_addr && i < all.len() ==> new.is_reset && !new.running
            &&& new.peripheral != was.peripheral && i < all.len() ==> new.is_reset && !new.running
            &&& i < all.len() && all[i] == Command::StartChannel ==> {
                &&& cleared
                &&& linked
                &&& new.peripheral == Some(DmaPeripheral::Spi3)
                &&& new.is_reset
                &&& !new.running
            }
        }),
{
    lemma_launch_at(d, chain, i);
}

/// When the channel starts, in whatever state the device was, the triggers are on, the FIFO is
/// empty and out of reset, and the channel is reset, listens, is linked to the descriptors that
/// were asked to send the buffer and to SPI3, and neither checks owners nor writes back.
pub proof fn law_start_of_channel(
    d: Device,
    chain: DescriptorChain,
    circular: bool,
    buffer: ReadBuffer,
    i: int,
)
    requires
        0 <= i < start_commands(chain, circular, buffer).len() + launch_commands(chain).len(),
        (start_commands(chain, circular, buffer) + launch_commands(chain))[i]
            == Command::StartChannel,
    ensures
        ({
            let all = start_commands(chain, circular, buffer) + launch_commands(chain);
            let now = run(d, all.take(i));
            &&& i == all.len() - 1
            &&& now.controller.timer_en
            &&& !now.controller.reset_fifo
            &&& !now.controller.fifo_holds_old
            &&& now.channel == (Channel {
                requested: Some((chain, circular, buffer)),
                listening: d.channel.listening.insert(DmaTxInterrupt::Eof),
                default_burst: true,
                descriptor_burst: true,
                check_owner: Some(false),
                auto_write_back: false,
                link_addr: chain.first,
                peripheral: Some(DmaPeripheral::Spi3),
                fenced: true,
                old_interrupts: Set::empty(),
                is_reset: true,
                running: false,
            })
        }),
{
    let start = start_commands(chain, circular, buffer);
    let launch = launch_commands(chain);
    let all = start + launch;
    law_start(d, chain, circular, buffer);
    let e = run(d, start);
    if i < 5 {
        assert(all[i] == start[i]);
    } else {
        assert(all[i] == launch[i - 5]);
        assert(i == 15);
        assert(all.take(i) == start + launch.take(10));
        law_run_in_parts(d, start, launch.take(10));
        lemma_launch_at(e, chain, 10);
    }
}

/// A transfer is stopped in four steps that leave all else alone, the power and the values of the
/// DAC channels among it: the triggers go off, the DMA channel stops, and the digital controller
/// is disconnected from the channels of the DAC and from the DMA channel.
pub proof fn law_stop_steps(d: Device, i: int)
    requires
        0 <= i < stop_commands().len(),
    ensures
        ({
            let all = stop_commands();
            let before = run(d, all.take(i));
            let c = before.controller;
            &&& all.len() == 4
            &&& run(d, all.take(0)) == d
            &&& run(d, all.take(i + 1)) == if i == 0 {
                before.with_controller(Controller { timer_en: false, ..c })
            } else if i == 1 {
                before.with_channel(Channel { running: false, ..before.channel })
            } else if i == 2 {
                before.with_controller(Controller { dig_force: false, ..c })
            } else {
                before.with_controller(Controller { trans: false, ..c })
            }
        }),
{
    law_run_step(d, stop_commands(), i);
}

/// The digital controller is disconnected when the triggers are off and the DMA channel is
/// stopped.
pub proof fn law_stopped_when_disconnected(d: Device, i: int)
    requires
        0 <= i < stop_commands().len(),
        stop_commands()[i] is ForceDigital || stop_commands()[i] is ConnectDma,
    ensures
        ({
            let before = run(d, stop_commands().take(i));
            !before.controller.timer_en && !before.channel.running
        }),
{
    let all = stop_commands();
    assert(i == 2 || i == 3);
    law_run_step(d, all, 0);
    law_run_step(d, all, 1);
    law_run_step(d, all, 2);
}

} // verus!
