# obelisk_bevy

The simulation rules of an ARPG skill layer for Bevy, written in Verus with every rule proved
to meet its contract: cast admission, phase clocks and window scheduling, triggered
sub-casts, hit modes and the hitbox termination funnel, cooldowns, aim acquisition, timeline
and surface-type validation, surface painting (merge, replace-oldest eviction), standing
payloads, contact reactions, cue slots, the seeded random streams, the entity index, and the
trace and event-log text.

Layout:

- `src/` — the verified library. Times are whole microseconds and real-valued content
  scalars are millionths (`units.rs`); entities are their 64-bit handles.
- `tests/` — tests of the library.
- `app/` — the Bevy integration: plugins, components wrapping the library's types, the
  systems that measure the world (floating-point geometry, physics queries), call the
  library, and carry out what it decides; RON/TOML loading; and the stat_core-backed hit
  resolution.
