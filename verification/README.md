# tc-tui

Tangential Cold Dashboard: system info, weather, website health, currency conversion and
GitHub activity at a glance, in the terminal.

- `src/` is the verified library (Verus): text utilities over `Seq<char>`, the header date
  line, its Madrid and Chicago clock and its centre label (with `chrono`/`chrono-tz` behind
  trusted wrappers for time-zone conversion, ISO date
  parsing and today's date), URL status handling, VPN detection, the IP-location label,
  the GitHub contribution-calendar parser, weather codes, currency labels and the currency
  pair, configuration sources, the CPU history and keyboard input.
- `app/` is the terminal program (`ratatui` + `crossterm`): configuration file loading,
  HTTP requests (`ureq`), system sampling (`sysinfo`), worker threads, floating-point
  values (temperatures, rates, loads) and drawing.
- `tests/` exercises the library on concrete values.
