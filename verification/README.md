# Mass Disk Archiver

Copies the disks in all drives of a machine to image files, several at once.

- `src/` is the library, verified with Verus. It does no input or output.
  - `text`, `number`: searching and splitting text, decimal numbers.
  - `lsscsi`, `blkid`, `isoinfo`: what the helper programs print, and what follows from it.
  - `copy`: copying a disk block by block, going on after read errors.
  - `worker`: the life of a drive, from one disk to the next.
  - `naming`: settling on a name for an image without overwriting a file unasked.
  - `tray`: opening and closing trays.
  - `status`, `menu`: what the user is told.
- `app/` is the program: it runs `lsscsi`, `blkid`, `isoinfo` and `eject`, reads devices, writes
  files and draws the screen, as the library decides.
- `tests/` runs the library. `tests/grammar.rs` holds the parsers to the same grammars written with
  `nom`.

`copy`, `worker` and `tray` are state machines: each call takes what came of the last action and
gives the next one. Functions whose names start with `law_` state what holds of the library as a
whole.
