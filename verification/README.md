# Klok

The logic of Klok, a smartwatch firmware that shows the time, verified with
Verus.

- `src/battery.rs`: the battery readings of the watch, the charger state, and
  the conversion of a battery voltage into a state of charge along reference
  curves: the library finds the two points between which the voltage lies,
  and the line through them is evaluated by a function that the caller hands
  in (the watch computes it in floating point, see `app/state_of_charge.rs`).
- `src/log_file.rs`: the lines of a measurement log file and the JSON object
  on each line.
- `src/measurement.rs`: the battery measurement logs from which the reference
  curves are derived: sorting
  by time, the share of the run at which each entry stands, the useful part
  of a charging run, and the reference curve that belongs to a log.
- `src/geometry.rs`, `src/battery_icon.rs`, `src/drawable_utils.rs`,
  `src/font.rs`, `src/watchface.rs`: the watch face: the outline and filling
  of the battery icon, placement on the display, the glyph table of the time
  font.
- `src/clock.rs`: the time text and the redraw delay.
- `app/`: the desktop simulator of the watch face (embedded-graphics), the
  tool that draws the measurement logs against the reference curves
  (serde, plotters), and the state of charge for a given voltage.
