# rust_engine_frame

Building blocks for game logic: timers, tags, effect containers and attribute
layers, with their behaviour stated in contracts and proved by Verus.

## Layout

- `src/` is the verified library.
  - `base_lib/cores` holds the shared pieces: the time type (milliseconds, `u64`,
    saturating), the context pattern (`DependCtx`, `Union`), tags, slot arrays, and
    the timers: tick timers, static timers read against a timeline, cyclic triggers,
    firing quotas and pause switches.
  - `base_lib/eff_attr` holds attribute layers and their ordering, effect kinds and
    identities, and the effect and modifier collections kept in a `slotmap::SlotMap`.
  - `base_lib/eff_attr_prop` holds the insertion-ordered upsert containers, effect
    containers found by identity, merge rules and the per-frame systems (expiry,
    hole compaction, timeline resets).
  - `attrs` holds the effect container found by name and the kinds of dynamic
    attribute and property effects.
- `app/` is ordinary Rust on top of the library, for the parts that compute with
  `f64`: attribute and property values and their formulas, the walk of a change
  through attribute layers, the per-frame system on an `f64` timeline (with its
  own `f64` tick and static timers), and progress ratios. The `f64` dynamic
  attribute family is not part of this crate.
- `tests/` runs the library on concrete values.

Each law of the library is a `law_*` proof function or a clause of the `ensures`
of the function it is about.
