# kamiki

Process-aware network observability on Linux: an XDP probe writes one record
per packet into a BPF ring buffer, and user space decodes the records, filters
them, tracks bidirectional flows and shows them in a plain listing, a terminal
view or a web API.

The library in `src/` is verified with Verus; every public function states
what it returns or changes.

- `event`, `filter`, `flow`, `process`, `collector`: decoding probe records,
  event filters, the flow table (a `DashMap` behind specified wrappers) with
  eviction of idle flows, and the capture configuration.
- `text`, `units`: the string and number rendering used everywhere (exact
  integer versions of the byte-count formats).
- `tui`, `tui_view`, `gui`: the state and text of the terminal and desktop
  views.
- `web_api`, `web_server`, `web_models`, `web_ui`, `web_tables`, `icons`,
  `web_dummy`: what the web front end and its HTTP API compute: listed
  packets and flows, totals, interface descriptions, the client's rolling
  lists and badges, the packet table's filter and search, the top-processes
  table, and where application icons are looked for.

`app/` holds the program around it: the libbpf collector thread, the
command-line and terminal front ends (clap, crossterm, ratatui) and the axum
server, all I/O.
