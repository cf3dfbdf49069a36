# saili

Reads a FeiYing/SAILI PhoenixRC USB simulator adapter (`1781:0898`), maps its
inputs to sixteen RC channels, and sends them to an ESPHome CRSF bridge over
the encrypted ESPHome native API.

`src/` is the library, verified with Verus:

- `protocol`: adapter reports, the report layouts and the raw-mux phase
  tracker with its calibration.
- `rc`: RC channel values, input mapping, calibration and the arm switch.
- `crsf`: CRSF frames, their checksum, hexadecimal form and telemetry.
- `noise`: the `snow` handshake and transport, with models of what each
  has written and read.
- `esphome`: the API client's framing, Noise session steps (through `snow`),
  key decoding (through `base64`), hello, discovery and action exchange.
- `reader`: the HID reader's decisions and the published snapshot.
- `backend`: what the network worker sends, and when, and the transmit
  session that ends every connection with the safe channels.
- `console`: configuration checks, the live/safe switch, the mapping editor
  and the telemetry panel.
- `capture`: change masks and CSV records of the capture tool.

`app/` is the program around it: HIDAPI, threads, TCP, protobuf encoding,
the terminal UI, and the capture tool (run when the program is invoked as
`saili-capture`).
