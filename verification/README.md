# connwatch

A terminal network connection monitor: it captures packets, tracks the
connections they belong to, recognises a few application protocols, stores
what it sees in SQLite, optionally scans remote hosts with Nmap, and shows a
globe, a live connection list and a detail pane.

## Layout

- `src/` is the library, verified with Verus. Verus checks every function
  there against its contract (where it has none, for freedom from panics and
  overflow), except the small wrappers marked `external_body` that call
  `chrono`, `pnet_packet`, `ratatui` and `std`: their contracts, each
  explained in its doc comment, are trusted, and so are the few named results
  (`uninterp spec fn`) that those contracts speak of:
  - `packet`: Ethernet / IPv4 / IPv6 / TCP / UDP decoding (header fields read
    through `pnet_packet`), specified byte by byte.
  - `analysis`: direction of a flow, protocol heuristics (HTTP request lines,
    TLS ClientHello with its server name, SSH banners), and HTTP request
    metadata, specified over the request's characters.
  - `capture`: the table of live flows, what one packet does to it, idle
    expiry, and capture device and filter choice.
  - `storage`: the rows and texts under which records are stored and read back.
  - `nmap`: scan records and the Nmap command line.
  - `tui`: interface state, events, key mapping and focus, screen split,
    list cells.
  - `model`, `net`, `text`, `clock`, `config`: data, addresses, text helpers,
    the clock and its instants, settings.
- `app/` is the program around it: command line, SQLite, pcap, MaxMind,
  the Nmap process, and the ratatui/crossterm interface.
- `tests/` exercises the library on concrete values.
