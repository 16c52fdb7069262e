# inferno_aoip

A Dante-compatible audio-over-IP node for Windows. The library in `src/` holds
the node's logic, each function with a contract proved by Verus; the program in
`app/` holds what talks to the operating system (audio devices, sockets, named
pipes, the service manager, the GUI) and hands plain values to the library.

## Library modules

| Module | What it holds |
|---|---|
| `bytes` | 16-bit byte splitting, fixed-size string fields, zero-terminated strings, byte-buffer writes and alignment |
| `text` | decimal and hexadecimal rendering, number / boolean / IPv4 parsing |
| `config_map` | string settings with last-entry-wins lookup, key upper-casing, `INFERNO_*` environment overrides |
| `settings`, `device_info` | the device description built from settings and the host's interfaces |
| `mcast`, `proto_cmc` | control-channel packet layout and channel-change masks |
| `ptp` | PTPv1 Sync parsing, offset measurement, the fall-back-to-free-running decisions |
| `usrvclock` | clock-overlay packet decoding, the performance-counter clock arithmetic |
| `pcm` | the render queue, integer sample formats for render, capture and the PCM pipe |
| `shm` | the driver's shared-memory ring: header checks and reading new frames |
| `metering`, `metrics` | peak-hold channel meters, the Prometheus exposition |
| `config` | the persistent configuration and its corrections on load |
| `audio_device` | device choice, sample-rate fallback, queue size, the Dante server settings |
| `firewall` | firewall rules, `netsh` arguments, the record of what was added |
| `ipc` | the control channel's requests and answers, service control |
| `status`, `wizard`, `settings_form` | what the tray window shows, the first-run wizard, the settings dialog |
| `state_storage`, `net`, `common` | state file paths, receive buffers, clock arithmetic |

Public `lemma_*` proof functions state properties that span calls: byte and
decimal round trips, FIFO order of the render queue, render/capture agreement,
frames read from the ring at most once, hostnames within the 31-byte limit,
the wizard over a whole sequence of clicks (steps, finishing, the interface
chosen), the fallback monitor over a stream of events, the wrap-around law of
clock differences, the free-running clock moving strictly forward, and the
settings dialog saving back what it loaded.

## Layout

- `src/` — the verified library.
- `tests/` — tests of the library on concrete values.
- `app/` — the Windows program: the audio service (`inferno_wasapi`), the tray
  window (started as `inferno_gui`) and the PCM pipe (started as `inferno2pipe`).
