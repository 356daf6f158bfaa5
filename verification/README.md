# voidforged

The game rules of an isometric action roguelite, written in Verus and
proved against their contracts.

- `src/` — the verified library:
  - `upgrades`, `upgrade_tree`, `meta`, `leveling` — the permanent upgrade
    catalog, purchases, accumulated bonuses, the upgrade screen, experience
    and level-ups, dungeon rewards;
  - `profiles`, `save`, `state` — characters, name typing, what is saved
    and when saving and loading happen, game states;
  - `zone`, `map`, `server` — zones of the world map, which zone a position
    lies in, zone transitions, cleared zones and respawns, enemy planning,
    dungeon entry, the server tick;
  - `models`, `pipeline`, `animation` — model slots and bindings, the
    asset pipeline configuration and loading queue, the animation state
    machine;
  - `texture`, `hud` — software-drawn UI textures, HUD lookup tables and
    texts;
  - `strmap`, `search`, `text` — a string-keyed map, first-match search and
    string helpers.
- `tests/` — tests run against the compiled library.
- `app/` — ordinary Rust around the library: the save file and the
  pipeline configuration file on disk, and the single-precision formulas
  (prices, the experience curve, bonus sums, enemy stats, colour
  gradients, timers).

Real-valued quantities cross the library as the bit patterns of their
single-precision values; all arithmetic on them happens in `app/`.
