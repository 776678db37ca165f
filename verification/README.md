# bevy_vn

The script tooling and engine core of a visual-novel runtime, verified with
Verus.

`src/` is the library:

- `text`, `strmap`, `number` — characters, a string-keyed map, and numbers
  kept as decimal text.
- `asb`, `iet`, `lua_config`, `mapper` — reading the Artemis engine's
  binary `.asb` scripts, text `.iet` scripts and `system/csv.lua` tables, and
  mapping their commands to `script::ScriptCmd`.
- `script`, `runner`, `auto_skip`, `view_phase`, `restore`, `save`,
  `settings` — the script engine (labels, calls, returns), what each command
  does to the state of play, auto and skip mode, the character view
  animation, rebuilding the scene after a load, saved games and settings.
- `pak`, `asset_source`, `audio`, `obj_index`, `gallery`, `after_story`,
  `sprites`, `view_data` — asset bundles (`.pak`, zstd-compressed) and the
  choice of where assets are read from, joining music segments into a WAV
  file, the object picture index, gallery lists, which after stories are
  open, and small lookup tables.

`app/` holds the command-line tools around it: `export` (Artemis scripts to
`.bscript.ron`), `pack` (asset bundles), `list` (reading bundles back) and
`saves` (saved games on disk).

`tests/` runs the library on concrete inputs.

## Maps keyed by strings

Flags, affection, unlocked pictures and music, and pack indexes are maps
keyed by strings. vstd's specification of `std::collections::HashMap` lets
Verus prove what a lookup gives back only for key types whose hashing and
equality it models; for a `String` key the calls are accepted but nothing is
known of their results, so no contract over such a map could be proved.
These maps are therefore `strmap::StrMap`, a map kept as two vectors with
distinct keys, whose insert, lookup and iteration are verified against a
`Map<Seq<char>, V>` view. `app/` turns them into `HashMap`/`HashSet` where it
reads and writes them with serde.
