# Comet

A colorful terminal system monitor. This crate is its verified core: the
rules that decide what the dashboard shows and how it reacts, proved with
Verus; `app/` is the program around it (sampling the machine, the terminal
and the files).

- `src/app.rs`, `src/signal.rs`: the dashboard's interactive state, its key handling and the signal dialog.
- `src/processes.rs`: process search, stable sorting and the process tree.
- `src/pet.rs`: the companion cat's mood machine.
- `src/recorder.rs`, `src/calendar.rs`: recording files, UTC timestamps.
- `src/history.rs`: the rolling ring buffer behind the charts.
- `src/meter.rs`, `src/labels.rs`, `src/layout.rs`: sizes, panel texts, dialog placement.
- `src/config.rs`, `src/tabs.rs`, `src/theme.rs`: settings, tabs and themes.
- `src/telemetry.rs`: plain telemetry records and the sampler handle.
- `src/sysfs.rs`, `src/parse.rs`, `src/text.rs`: reading the system's text files.
