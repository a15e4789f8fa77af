# switchblade

The decisions of a video clip picker, verified with Verus: a grid of moving
thumbnails to fly around in, a quick view, a full view with chapters, live
streams, a media cache, and the benchmarks that measure all of it.

- `src/` is the library. The state machine (`state`, `input`, `keys`, `select`,
  `library`, `arrivals`, `chapters`, `live`, `media`, `metas`, `atlas`, `scene`,
  `chips`, `step`, `camera`) takes events and answers and says what is to be done; the geometry
  (`grid`, `flex`, `ribbon`, `overlay`, `picture`) says where things lie;
  `ingest`, `commands`, `tuning` and `start` say what files, keys and settings
  come to; `bench`, `events`, `measure`, `table`, `report`, `printout`, `cli`
  and `overrides` run scenarios and report them. `laws` states what holds
  across all of it.
- `app/` runs the library: windows, decoders, threads, files, colours.
- `tests/` run the library from outside.

Every length is an integer of micropixels, every ratio of millionths, every
fraction of a clip of billionths, and every time of nanoseconds. A clip's file is
known by a number. What the library asks of the world around it, it puts into a
list of effects, which whoever runs it takes and performs.

The contracts of the state machine are of one form: the state after a call is the
state before it under a function of the arguments.
