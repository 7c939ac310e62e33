# esp_dac

Driver logic for the digital-to-analog converters of the ESP32 and the ESP32-S2, verified with
Verus.

The drivers in `src/` touch no hardware. Each operation appends commands to a list; `app/` plays
such lists on the registers of the chip and on the DMA channel, and hands back what the hardware
answered.

- `dac`: one channel, driven value by value.
- `continuous_dma`: continuous output from memory on the ESP32-S2.
- `clock_plan`, `clkdiv`: the trigger interval and the fractional divider for a conversion
  frequency.
- `command`, `dma`, `gpio`, `system`, `peripherals`: the commands and the values that they carry.
- `device`, `laws`: a model of the hardware, and what the drivers' commands do to it.
