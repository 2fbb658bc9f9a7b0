# netwatch

A connection monitor: a kernel program reports TCP state changes through a
ring buffer; each event is decoded, its endpoints are named and classified,
and the record is stored and pushed to a web dashboard.

- `src/` is the verified library (Verus): event decoding (`ebpf::events`),
  address text (`net`), hostname/port risk rules (`threat`), address-prefix
  rules (`threatintel`), the indicator set (`threat_feed`), the feed text
  format and its laws (`feed_updater`), process and location details
  (`process`, `geoip`, `dns`), and record building (`monitor`).
- `app/` is the program around it: loading the kernel program, the ring
  buffer loop, DNS, `/proc`, the GeoIP database, SQLite, the HTTP and
  WebSocket server, and the feed download.
- `tests/` runs the library on concrete values.
