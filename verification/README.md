# telink_ota

Host-side logic of Telink's USB-HID OTA firmware-update protocol, verified with Verus.

- `src/crc.rs` — CRC-16/MODBUS, specified bit step by bit step, with laws for streaming
  (checksumming `a` then `b` is checksumming `a + b`) and for the zero residue of a message
  followed by its own checksum.
- `src/packet.rs` — the 33-byte report framing, data chunks, the version/start/finish
  control reports and the chunk acknowledgement check, with layout laws.
- `src/progress.rs` — the progress bar, durations, the progress line and ANSI coloring.
- `src/cli.rs` — command-line validation (`version`, `flash ... --confirm-flash`).
- `src/device.rs` — Linux device-number decoding, the sysfs class link of a hidraw node, and
  the check that the link names the hidraw class.
- `src/session.rs` — the decisions of a firmware update as a state machine: which chunk to
  send, resends (at most three sends per chunk), when to finish and when to give up.
- `src/text.rs` — decimal formatting and string comparison used by the above.
- `app/` — the `telink-ota` program: device, file and terminal I/O, and the floating-point
  rate and ETA estimates.
