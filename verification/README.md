# tztr

Timezone Translator: finds every timestamp in a line of text, whatever its
format, converts it to another zone and writes it back in the shape it was
written in. Every other byte of the line comes out exactly as it went in.

The library in `src/` is verified with Verus:

- `scan`, `found`: the timestamp grammar, as a leftmost-first search over bytes.
- `reading`, `parts`, `gaps`, `stamps`: what each timestamp is read as, and
  how the members of a range or list share a zone, a meridiem and a date.
- `comps`, `convert`, `civil`: a reading parsed into a wall clock and an
  instant (the calendar and zones come from `jiff`). A dated timestamp at a
  fixed offset of its own, or naming no zone, always converts; each
  converted time is the local time in the `-t` zone of the instant its wall
  clock names in the zone it was read in, and each zone carries the name it
  was loaded under. A timestamp without a date is read on today's date as
  the clock gives it in the zone the timestamp is anchored in.
- `format`: the converted time written in the shape of the text it was read
  from, each date and clock field written by `jiff`'s `strftime`.
- `plain`: every timestamp starts and ends on an ASCII byte, so translating
  UTF-8 gives UTF-8.
- `tz`, `zones`: zone abbreviations, fixed offsets and the alias table.
- `notes`, `lines`, `args`, `config`, `cli`: what `-v` discloses, what each
  line comes to in each output mode, and the command line's arguments.

`app/main.rs` is the program around it: arguments from the environment,
files, stdin and stdout, and JSON output.
