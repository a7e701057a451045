# link

Host-side and chip-side protocol logic for the link device (a management chip,
a UI chip and a NET chip, driven from a host over a serial line), written in
Verus with its behaviour stated as contracts and proved.

- `src/port.rs`: the byte-port model (`incoming` / `outgoing`) that every
  protocol client states its contracts over; an in-memory port.
- `src/tlv.rs`: the TLV wire format, guarded links (sync word, scanning reader),
  message types; round-trip laws.
- `src/mgmt.rs`, `src/ui.rs`, `src/net.rs`: the chips' message routing.
- `src/host.rs`: the host's pings through the chips, and the laws that each
  ping is answered.
- `src/ctl.rs`, `src/buffered.rs`: the host controller's port, its TLV read and
  write and its tunnel buffers (the controller's command requests are not
  here), and a buffered port.
- `src/stm.rs`: the STM32 USART bootloader protocol.
- `src/slip.rs`, `src/esp.rs`, `src/flasher.rs`, `src/reset.rs`: the ESP32 ROM
  bootloader protocol (SLIP framing, commands, partition table, flash
  parameters, reset sequences).
- `src/flash.rs`: flashing the MGMT chip (STM32F072: erase by 2 KB page with a
  fallback to the legacy erase, write and read back in 256-byte chunks, jump)
  and the UI chip (STM32F405: erase by sector), and the MGMT bootloader's
  information.
- `src/mgmt.rs`, `src/net_ctl.rs`: the MGMT and NET firmware's handling of host
  commands; the NET settings and the driver that saves them and answers.
- `src/pins.rs`, `src/mocks.rs`: reset and LED pins, test doubles.
- `app/`: a command-line tool that opens a serial port and runs the bootloader
  clients on it (chip information, partition table, MGMT flashing).

What is proved of a protocol client holds of runs over a port that meets the
port contracts over its own model; the serial port in `app/` keeps the default
model and is not covered.
