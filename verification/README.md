# inlet

Input bindings for the Bevy game engine, with the binding logic verified by Verus.

A game maps its own actions to button, chord, combo and axis bindings. Every frame the
bindings poll the inputs of `bevy_input`; when several bindings share an input, a clash
handler decides which of them may see it (the longest chord wins, optionally after a short
buffering delay).

## Layout

- `src/` – the verified library.
  - `lib.rs`: input values (axis readings held as `f32` bit patterns) and input kinds.
  - `button.rs`: the press state machine (`ActionableState`, `ButtonState`), chords, combos,
    event bindings and action bindings.
  - `axis.rs`: axis kinds and the state of an axis reading (`ValueState`).
  - `manager.rs`: the clash handler used by the input system, with its settings.
  - `settings.rs`: the clash and combo settings.
  - `systems.rs`: the per-frame decisions for action bindings (poll, then look again).
  - `clash.rs`, `clash_manager.rs`, `org.rs`: alternative clash handlers.
  - `time.rs`: durations and points in time as integers of nanoseconds.
  - `bevy_types.rs`: the `bevy_input` types the library holds, and their comparisons.
- `app/` – the Bevy side: components and resources, the plugin, the system that reads
  `bevy_input` each frame, and the axis bindings that compute on `f32`.
- `tests/` – tests of the library.

Each public function of `src/` states its behaviour in `requires`/`ensures`; the rules the
clash handlers promise (buffered inputs are never shown the frame they are first pressed, a
captured input stays hidden from shorter chords, and so on) are proved as `lemma_*` proof
functions next to the code they speak of.

Whatever depends on the time takes the clock reading as an argument in a function whose name
ends in `_at` (`poll_at`, `tick_at`, `feed_at`, `held_for_at`, `expected_binding_at`, ...), and
its contract fixes the result for every reading. The function without the suffix reads the
system clock once and calls it, so its contract holds for some reading.
