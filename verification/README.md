# desktop_neko

A desktop pet: small animated sprites that walk, fall and react to clicks on
top of the desktop. Pets come in packages (see the package format below).

## Layout

- `src/` — the verified library (Verus):
  - `package/manifest.rs`, `package/behavior.rs` — the contents of
    `manifest.toml` and `behaviors.toml`, with lookups of animations and
    states by name;
  - `package/sprite.rs` — decoding a sprite sheet and cutting it into frames;
  - `package/loader.rs` — the animation table of a package and assembling a
    package from its files' contents. The table is a vector of (name, frames)
    pairs whose names are pairwise distinct, inserting under a present name
    replacing its frames: vstd specifies `HashMap` only for key types with a
    key model (integers and the like), not for `String` keys, so a
    `HashMap<String, _>` would leave its contents unspecified;
  - `pet/animation.rs` — frame playback at a given frame rate;
  - `pet/state_machine.rs` — the behaviour state machine (clocks, click
    combos, transition priorities and targets);
  - `pet/instance.rs` — restarting the animation for a pet's state.
- `app/` — the program around it: reading packages from disk, windows,
  the tray icon, floating-point movement and the random draws the state
  machine consumes.
- `tests/` — tests of the library.

## Package format

A package directory holds `manifest.toml` (sprite size, frame rate and one
sprite sheet per animation, frames laid side by side) and `behaviors.toml`
(the initial state and, per state, its animation, movement and
transitions). Among the transitions of a state whose conditions hold, the
one with the highest priority is taken, the earliest listed among equals.
