# Subdivism core

The rules of the Subdivism voxel building game, written in Verus with their
contracts proved.

- `src/` is the verified library:
  - `game/`: blocks and their ids, sky light volumes (`skylight`, `world`,
    `tall_world`), the player's inventory, world edits and sub-block
    storage (`world/storage`, `world/edits`), the asset registry's biomes
    and texture list, HUD text, texture brush names and the block style
    book's lines, terrain parameter labels, terrain recipe files
    (`terrain_recipe`), and the prefab catalogue's placements and spawn
    decisions;
  - `client/`: input command numbering, client-side prediction bookkeeping
    and the offline network stub;
  - `ui/`: menus, the inventory cursor, build mode's sub-block wallet,
    placing and removing sub-blocks (`sub_edit`), streaming budgets,
    level-of-detail rings (`lod`) and the tiles they draw together
    (`lod_cover`), chunk mesh streaming
    (`streaming`), benchmark tile sets (`perf`) and start-up options
    (`launch`);
  - `settings`: the settings file's lines, whole-number and on/off values;
  - `tools`: options, names, slugs, height-map CSV and description keywords
    of the command-line tools;
  - `text`: the string helpers the rest is built on;
  - `debug_overlay`: the 5x7 overlay font.
- `app/` holds what Verus does not check: files, the environment, the clock
  and arithmetic on fractional numbers (input quantizing, fractional
  settings, texture tints, spawn chances, recipe and style numbers,
  previews, finding the sub-block a pointer hits).
- `tests/` runs the library on concrete values.
