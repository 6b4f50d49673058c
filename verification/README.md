# mitos-audio

System audio management for MITOS: a daemon that sits above the sound
system and below its clients, with a JSON-lines control socket, a binary
data-plane socket for PCM, routing rules, and a typed client.

The library (`src/`) holds the logic, each function with a contract that
Verus proves:

- `manager` — the device and stream registry, command handling (as steps
  that name the hardware work they need), the reconciliation of a hardware
  scan, and the laws that tie the operations together.
- `routing` — rule matching (case-insensitive globs), action resolution and
  evaluation in file order, and the remembered defaults.
- `engine` — stream formats and channel mapping, the data-plane framing,
  the per-connection protocol decisions, live-stream ring buffers, output
  levels and the sink lifecycle.
- `ipc` — typed commands decoded from JSON requests, replies, responses,
  events and peer permissions.
- `client` — event decoding, response handling, reconnect pacing and
  playback framing for clients.
- `backend`, `persistence`, `config`, `devices`, `streams`, `volume`,
  `errors`, `keyed`, `text` — the demo hardware, the saved settings, the
  data model and the string and key helpers the rest builds on.

`app/` is the program around it: sockets, threads, files, the floating-point
sample path, udev hotplug and the `mitos-audioctl` command line.
