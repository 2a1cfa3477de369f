# mount_toy_db

Builds the Lua tables of a World of Warcraft collection addon from the game's
client database tables (exported as CSV files) and a few web pages: which
mounts and toys exist, which can be traded, what restricts a mount, the family
and the colors of each mount, how a mount's looks are unlocked, and what a toy
does to the player.

The library under `src/` is written in Verus. Its functions carry contracts
that Verus proves, with one kind of exception: the small functions marked
`#[verifier::external_body]` that call the outside crates (regular
expressions, HTML entities, JSON5 and CSV reading, byte order) and a few std
string operations. Their contracts are assumed, not proved; each says in its
doc comment what it claims of the outside function, and most only give the
outside result a name.

- `tools/` – row types of the tables, grouped lookups (`db_reader`), Lua table
  files built as text (`lua_export`), text helpers, the list file, M2 model
  texture ids, build info and container arguments, JSON values (`json`), and
  the few calls into outside crates (`patterns`: regular expressions and HTML
  entities).
- `mount/` – collecting mounts (icons, teaching items, player conditions),
  families, customizations, mounts from web page lists, the rare drop scan
  over wowhead pages (`drops`: page addresses, the JSON the pages hold, which
  npc drops a mount and what its page says of the drop), the rarity page's
  data, model and texture files, and the exported mount tables.
- `toy/` – collecting toys and the visual effects of their spells, factions,
  and the exported toy tables.

`app/` is the program around it: it reads the configuration and the files,
downloads the tables and pages, reads the floating point values (map
positions, rarities) from the JSON the library finds in pages, computes
dominant colors and drop chances, runs the containers, and writes the files
the library produced.
