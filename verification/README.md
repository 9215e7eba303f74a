# bmw_enet

A Layer-2 Ethernet-over-UDP tunnel meant to let BMW diagnostic tools on a
desktop reach a car whose ENET cable is plugged into a laptop (as built here,
the programs forward simulated ports; see below). The library
holds the wire protocol, the link and pairing rules, the status and
flash-safety decisions, and the update and installer logic, each with a
contract proved by Verus.

## Layout

- `src/` — the verified library:
  - `wire`, `magic`, `frame`, `crypto`, `error`: tunnel frame layout, header
    and frame encoding/decoding (decoding undoes encoding), ChaCha20-Poly1305
    sealing of payloads.
  - `tunnel`, `state`, `status`, `stats`, `safety`, `activity`: the engines
    decisions (the step taken for each received message, peer learning, keepalives, timeouts, state transitions),
    packet counters and reconnect backoff, dashboard texts, the flash-safety
    gate and the host's activity log.
  - `relay`, `discovery`, `resolve`, `addr`: relay framing and rooms, LAN
    discovery datagrams and pair codes, how the agent picks the desktop,
    IP/CIDR rules.
  - `config`, `installer`, `setup`, `updater`, `archive`, `npcap`, `semver`,
    `simframes`, `text`: settings texts, the setup wizard's files and
    command lines, release selection and checksum verification, archive
    staging, capture-driver detection and text helpers.
- `tests/` — tests run against the compiled library.
- `app/` — the programs: command line, sockets and async runtimes, HTTP
  dashboards, downloads and Windows service steps.

## Limits of the programs

The programs bridge simulated Ethernet ports only. Capturing on a real ENET
adapter needs the `pcap` crate and the system's libpcap/Npcap, which are not
part of this build, so the adapter and capture-device pickers in the library
(`discovery::pick_enet_interface`, `npcap::capture_device_for`,
`npcap::pick_capture_device`) have no caller in `app/` yet. The desktop GUIs
(eframe) and the Npcap installer download are not included either; the
dashboards are served over HTTP.
