# ldtk_integration

Level management for LDtk worlds in Bevy games, with its logic verified by
Verus: load and runtime state, the level/layer catalog, typed entity fields,
spawner registration, collision rules and layer filters, level transitions
with spawn-point resolution, world commands, and tile animation.

## Layout

- `src/` — the verified library. Its functions carry `requires`/`ensures`
  contracts that Verus proves; the few trusted wrappers around outside calls
  carry contracts that Verus believes. Laws that relate several functions are
  public `proof fn law_*` items.
  - `state.rs` — load status, counters, validation report, runtime state.
  - `catalog.rs` — the map catalog (levels by identifier and IID, layers by
    IID) and the runtime collision and entity catalogs.
  - `fields.rs`, `entities.rs` — typed field values, the field map and the
    shared field accessors.
  - `registry.rs` — spawner registration and its four-level resolution.
  - `config.rs` — configuration builders, name/value sets, layer filter.
  - `level_manager.rs` — spawn-point resolution and the transition state
    machine (request, completion on level spawn, failure, cleanup).
  - `commands.rs`, `external.rs` — world commands, world identifiers and the
    parts of external level paths.
  - `animation.rs`, `tilemap.rs` — frame timers and tile animators, the
    custom-data animation syntax, and the tilemap adapter's decisions.
  - `text.rs` — verified string helpers (trimming, splitting, integer
    parsing, ASCII case folding).
  - `outside.rs` — declarations of the Bevy types that the library carries.
- `tests/` — tests that run the library with the real outside crates.
- `app/` — the Bevy plugins and systems: resources, messages, queries, asset
  loading, file reads and the floating-point parts, calling the library for
  every decision.
