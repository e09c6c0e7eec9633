# sb_scenario_generator

A generator of sweatbox scenario files for air traffic control training,
as a library verified with Verus and a small program around it.

- `src/` — the verified library: the airport data model (`airport`), the
  standard-route expansion (`route_parser`), aircraft entries and transponder
  codes (`aircraft`), stand allocation (`stands`), traffic staging,
  scheduling and the scenario file (`generator`), the decisions of the update
  check (`update_check`), data consistency checks (`data_checks`), text
  handling (`text`), the random choices made with `rand` (`random`), and the
  properties that span functions (`laws`).
- `app/` — the program: reading the airport JSON files (a file with an
  `update_url` is replaced by a fresh download of it), the interactive
  questions, the network update check, the floating-point conversions, and
  writing the scenario file.
- `tests/` — tests of the library on concrete values.
