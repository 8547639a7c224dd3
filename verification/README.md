# lora_rfm98

A driver for the HopeRF RFM95/96/97/98 LoRa and FSK radio modules, verified
with Verus.

The radio is driven by single-register reads and writes over SPI. Everything
that decides what goes over the wire lives in the verified library under
`src/`:

- `register.rs`: the register map and the read/write command bytes;
- `mode.rs`, `modem_config.rs`, `rates.rs`: mode words, modem configuration
  fields, LoRa and FSK data rates, EU868 channel frequencies;
- `program.rs`: every driver operation (reset, LoRa and FSK send and receive,
  flag queries, packet reads) as a list of bus instructions;
- `machine.rs`: the state machine `RFM95` that runs those lists, answering each
  bus reply with the next bus action until the operation's result;
- `laws.rs`: properties of the machine across steps (command framing, failure
  handling, mode changes, both outcomes of polling, packet reads, version
  check, bus-traffic bounds, FSK transmissions staying in FSK modes, and reset
  against a register-file chip, including that a second reset changes nothing).

`app/` drives the machine on embedded-hal 1.0 hardware: it owns the SPI device,
the reset and DIO0 pins and the delay source, performs each action and hands
the outcome back to the machine.
