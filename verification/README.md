# badwire

A library for controlling network-condition emulation with `tc netem`, and the GTK
program around it.

- `src/` is the verified library: trimming and unit stripping of entered values,
  numeric filtering of entries, validation of netem values and construction of the
  `tc` argument lists, the built-in presets and the decisions taken when presets are
  loaded, the application state (presets, emulation status) and the state updates
  that follow a run of `tc`.
- `app/` is the program: the GTK windows, running `tc`, reading `/sys/class/net`,
  the presets file (JSON), and the floating-point reading of entered numbers, which
  the library receives as a `NumberClass` for each value.
- `tests/` runs the library on concrete values.
