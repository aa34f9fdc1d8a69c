# messoria

The rules of a cooperative farming world, verified with Verus: its calendar,
clock, sleep and weather, and the game content that data files describe,
checked against each other when it is loaded.

## Layout

- `src/calendar/`: dates and seasons, the world clock and the 24-hour clock
  with its parser, the rules for ending a day by sleeping, and the weather
  each day gets from the world's seed.
- `src/content/`: the content files as values (items, crops, shops,
  scenery, palette, structures, characters, village), the checks each file
  and each cross-reference must pass, the catalog built from valid files,
  and the messages that name what is wrong. Numbers from the files are held
  as the bits of 32-bit floats and compared as floats compare.
- `src/text.rs`, `src/noise.rs`: decimal text and fixed pseudo-random bits.
- `app/`: what the library leaves to plain Rust: reading the RON files with
  serde, looking for the models and skins they name on disk, the real-time
  length of a game minute, and everything computed in floating point.
- `tests/`: scenarios on concrete values, run against the compiled library.

## What is proved

Every public function states what it returns. Among the properties proved:
loading fails exactly when a file has a problem, and names the first one in
file order; every id a catalog holds refers to one of its definitions; every
key looks up its own definition; every seed grows exactly one crop and every
structure item builds exactly one structure; every material is dug as a
terrain item; the seasons fill the year and every day has one date; clock
text reads back as the time it shows.
