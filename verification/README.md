# combatsim

A combat simulator for Milky Way Idle with a verified core.

- `src/` is the library, verified with Verus: the timed event queue and the
  event model, tick arithmetic, the dungeon-wave and labyrinth bookkeeping,
  the wipe log, the records kept during a run (time alive, time out of mana,
  vitals series), the merging of several runs, the guild trial staircase,
  the trigger-dependency table and item catalog read from the game data,
  item and achievement lookups, and the experience table.
- `app/` is the program around it: argument handling, reading the player
  export and the game data, the real-valued combat rules (stats, damage
  rolls, buffs, weighted spawns), parallel runs and JSON output.
- `tests/` exercises the library on concrete values.

The program reads the game data from the JSON files in the directory named by
`COMBATSIM_DATA_DIR` (default `data`): `actionDetailMap.json`,
`itemDetailMap.json`, `abilityDetailMap.json`, `combatMonsterDetailMap.json`,
`houseRoomDetailMap.json`, `achievementDetailMap.json`,
`achievementTierDetailMap.json`, `combatStyleDetailMap.json`,
`combatTriggerDependencyDetailMap.json` and
`enhancementLevelTotalBonusMultiplierTable.json`.

Options: `--zone`, `--tier`, `--hours`, `--runs` (runs merged and averaged),
`--input`, `--moo-pass`, `--com-exp`, `--com-drop`, `--seal`, `--pretty`,
`--list-zones` and `--guild` (the guild trial staircase).
