# mx4

A small command line for the Logitech MX Master 4: status, settings over HID++, a saved
configuration that is reapplied when the mouse reconnects, and an opt-in per-user daemon.

The library under `src/` is written in Verus and verified: every public function states what it
returns in its contract, and the properties that span functions are proved as lemmas.

- `device` — HID++ packets, reply matching, device discovery and the Bolt receiver-slot scan.
- `exchange` — the shape of a conversation with the mouse: each device operation is a decision
  procedure that, given the replies so far, returns the next step (exchange a request, write a
  packet, pause, or finish).
- `features` — battery, DPI, Easy-Switch host, haptics, force button, wheels and firmware.
- `config` — the saved configuration, its file format (with the proof that a saved file reads
  back as the configuration that was saved) and the best-effort reapplication of saved values.
- `daemon` — the reconnect daemon's poll decisions.
- `service`, `autostart` — the generated systemd unit and launchd agent.
- `cli` — command-line parsing, help, version and the combined JSON status.
- `text`, `error` — trimming, number parsing and rendering; errors and their messages.

`app/` is the program around the library: HID I/O through `hidapi`, the transport lock, file
I/O for the configuration, running `systemctl`/`launchctl`, and printing.
