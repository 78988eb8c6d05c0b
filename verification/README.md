# taploot

Backend of an offline OT/ICS network analysis tool: it reads a pcap or pcapng
capture, dissects each Ethernet frame (IPv4 with TCP, UDP or ICMP), recognises
Modbus TCP, names device vendors by MAC prefix, and aggregates the capture into
hosts, connections and packet rows for a topology canvas and a timeline.

- `src/` is the library, written in Verus and verified:
  - `modbus` — Modbus TCP recognition from the MBAP header.
  - `text` — ':'-separated fields, hexadecimal bytes, printed MAC and IPv4 forms.
  - `oui` — the vendor table (from TOML) and vendor lookup by MAC prefix.
  - `dissect` — frame dissection through `etherparse`.
  - `reader` — `pcap-parser`'s streaming readers, with a record of how they are driven.
  - `capture` — reading pcap/pcapng captures; packets read before a reader
    error are kept with the error. A pcapng process information block whose
    length is below the 12 bytes of a block's frame is refused before the
    reader is asked for it (the reader would take 12 from that length).
  - `aggregate` — the aggregation into an ordered list of database writes, with
    its laws (writes in creation order, one host per address, one connection
    per flow, one packet row per kept frame, the per-packet step, the bounds on
    the counts, and counts that do not depend on packet times).
  - `error` — the parse error.
- `app/` is ordinary Rust around it: the SQLite database (rusqlite), the command
  handlers, the serialisable results, and the conversion of capture times to
  seconds.
- `tests/` runs the library on hand-built frames and captures.
