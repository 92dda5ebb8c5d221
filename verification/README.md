# openvehiclediag

The verified core of a vehicle diagnostics front end that talks to ECUs
through an SLCAN (serial-line CAN) adapter.

`src/` is checked by Verus:

- `frame`, `comm`, `schema` — CAN frames, adapter value types, and the parts
  of an ECU JSON description that the front end reads.
- `text` — hexadecimal and decimal text, as the SLCAN wire format and the
  input fields use it.
- `slcan`, `stream` — the SLCAN line format: bitrate codes, encoding and
  parsing frames, splitting the serial byte stream into lines, receive
  filters, and how replies settle a command.
- `isotp`, `isotp_laws` — ISO 15765-2 segmentation, flow control and
  reassembly, with the proof that a payload cut by the sender is put back
  together by the receiver.
- `adapter` — the channel state of the driver: queues, filters and ISO-TP
  settings, and every change the driver makes to them.
- `manual`, `session`, `json_session`, `selector` — the decisions of the
  manual diagnostics page and of a JSON diagnostic session.

`app/` holds what Verus does not see: the serial-port driver loop, reading
files and their serde shapes, the file picker, and the page wiring.
