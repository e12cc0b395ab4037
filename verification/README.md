# rs1090

An ADS-B aircraft tracker that reads Mode S frames from a Beast TCP feed,
keeps per-aircraft state in the form tar1090's web interface expects, and
estimates each aircraft's CO₂ emissions from its type and the distance it
flies.

## Layout

- `src/` — the library, verified with Verus:
  - `beast.rs` — Beast protocol decoder, a state machine fed byte by byte,
    with a model of the protocol and the law that decoding inverts encoding.
  - `tracker.rs` — the aircraft state machine: message handling, CPR frame
    pairing, CO₂ accounting, ageing and expiry.
  - `icao_country.rs` — country of an ICAO address block.
  - `co2.rs` — emission-factor tables and size classes.
  - `modes.rs` — decoded Mode S messages as plain values.
  - `text.rs`, `readsb.rs`, `json_output.rs`, `clock.rs` — text helpers,
    output fields and the monotonic clock.
- `app/` — the program around it: command line, the TCP reader, Mode S
  decoding with adsb_deku, the floating-point CPR decode and great-circle
  distance, JSON files and the SQLite store.
- `tests/` — tests of the library.

Units inside the library are fixed-point: positions in micro-degrees,
speeds and angles in tenths, times in nanoseconds, distances in millimetres
and CO₂ in tenths of a milligram.
