# tfcore

The decision logic of a Team Fortress 2 client assistant, written in Verus
and verified: every function under `src/` carries a contract that Verus
proves.

- `src/utils.rs` — byte-pattern search with wildcards (first match), byte
  string equality.
- `src/hooks.rs` — the per-tick command rewrite (buttons, fixed command
  number and seed), glow decisions, the command ring-buffer slot, the
  serialisation of a user command and its CRC-32 (through the `crc` crate),
  the search for the input system's address in machine code.
- `src/aimbot/`, `src/airblast.rs`, `src/triggerbot.rs` — which entities are
  targets, where to aim, which projectiles to reflect, when to fire, and the
  walks over entity indices.
- `src/predict.rs`, `src/gui.rs`, `src/vmthook.rs`, `src/interfaces.rs`,
  `src/offsets.rs`, `src/sdk.rs` — the prediction command, UTF-16 text
  buffers, copies of virtual method tables, interface lookups, field offsets
  and the plain data types.

`app/` holds the floating-point geometry (vectors, angles, rays, aiming,
strafing, movement correction), which the verified library cannot hold, and
drives the library's walks. Floating-point fields of a user command travel
into the library as their IEEE-754 bit patterns.
