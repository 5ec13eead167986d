# app_core

The hardware-independent part of a four-channel current and voltage meter:

- `adc_converter`: the latest readings (`StoredValues`) and snapshots of them.
- `modbus`: CRC-16/MODBUS, decoding of "read input registers" requests, and the
  read and exception replies, with the laws that tie them together.
- `responder`: what the Modbus task does after each receive attempt.
- `hardware_traits`, `modem`, `constants`: small shared types.

Everything under `src/` is verified with Verus. `app/` is the firmware around it
(Embassy on an STM32L052): hardware setup, sensor sampling, the LED blinker and the
UART loop that performs the actions the library decides.
