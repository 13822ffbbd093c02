# Topdown Racer

A top-down racing game's rules, written in Verus and proved: track
description validation, the race's countdown, ordered checkpoints, laps and
finish, Corner Practice attempts, local records, the HUD and results text,
the in-memory WAV encoder, the world bake's texel patterns, and the
shell's screen, pause and control decisions.

## Layout

- `src/` — the verified library (`topdown_racer`).
  - `track.rs`: the track vocabulary and `Track::from_source`, which
    validates an authored track and builds the circuit; rejection messages.
  - `race.rs`: countdown, lap progress, the finish window with its places
    and DNFs, pause and the preparation to resume, recovery and its
    cooldown, the race state and its laws.
  - `eligibility.rs`: which laps may set a record, and the best of them.
  - `standings.rs`: positions: flagged Cars by place, then racing Cars,
    then DNF Cars, each by live progress.
  - `unstick.rs`: the AI driver's stall watch and reversal.
  - `layout.rs`: which segments get road geometry; zone fans.
  - `practice.rs`: Corner Practice attempts over directional gates.
  - `records.rs`: the record book, record keys and the FNV-1a identity hash.
  - `text.rs`, `hud.rs`, `results.rs`: decimal/hex text, lap times,
    ordinals, the HUD strings and the results table.
  - `audio.rs`: the mono 16-bit PCM WAV image.
  - `bake.rs`, `palette.rs`: dither lattice, ground patterns and palette.
  - `controls.rs`, `screens.rs`, `lifecycle.rs`, `feedback.rs`,
    `effects.rs`, `awareness.rs`: key mapping and control latch, screen
    transitions, pause decisions, contact onsets, the tire-mark pool and
    menu labels.
  - `binary32.rs`: IEEE binary32 predicates decided on bit patterns.
- `tests/` — tests of the library.
- `app/` — a headless program around the library: reading track files,
  record storage, the car model, the AI driver, render geometry and the
  world bake's rasterization, all in binary32 world units.

Times inside the library are fixed ticks (64 per second) or hundredths of
a second; binary32 quantities cross into it as bit patterns.

Run the program with `topdown-racer <track.json> [--practice]`.
