# smart_home

A smart home model verified with Verus: thermometers and sockets, rooms and
houses keyed by name, their text reports, a type-state house builder, a
report collector, an observed room, the rules of the remote smart home
service and of its web front end, and the line protocol of the networked
socket and its emulator.

Layout:

- `src/` — the verified library. `name_map` keeps names in ascending order
  and is the map behind rooms and houses; `device`, `room`, `house`,
  `error` and `report` model the home; `smart_house_builder`,
  `report_builder` and `observer` are the patterns; `service` and `web`
  decide what requests do and answer; `network` and `emulator` hold the
  socket protocol, the thermometer emulator's configuration and random
  sequence; `text` holds name order, decimal rendering and parsing; `laws`
  states properties that span operations.
- `tests/` — tests run against the compiled library.
- `app/` — the programs: demonstrations, networked devices over TCP and
  UDP, the emulators, a C interface to a socket and a program that loads
  that interface at run time.

Readings (temperatures, powers) are held as the decimal text by which they
are displayed; the programs convert between that text and floating point.
