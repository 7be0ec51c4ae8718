# fortinet-vpn-status

Reports the state of a FortiClient VPN connection for a desktop panel, as one JSON
object per check (or a stream of them with `--watch`).

- `src/` is the verified library: the classification of `forticlient vpn status`
  output against the interfaces of `ip -j address` (`status`), the character-level
  text handling it rests on (`text`), the byte counters, session durations and the
  transfer between samples (`monitor`), the configuration (`config`), what the panel
  shows (`presentation`) and the command line (`cli`). Each function states its
  result in its contract; the `law_*` proof functions state properties that span
  several of them.
- `app/` is the program: it runs the two commands, reads the configuration file and
  the clock, writes JSON, formats byte amounts and rates (floating point), and loops
  in watch mode.
- `tests/` exercises the library.
