# hakutaku_core

The GUI-independent services of a log viewer, written in Verus.

- `src/` is the verified library:
  - `budget`: limits on open sources (per file, count, total), compare and
    reserve;
  - `line_index`: the compact line index of a source (24 bytes per entry plus
    its line number);
  - `item`: item identifiers, appending pending items to the index, and the
    growth bookkeeping (how much memory a batch needs before it is appended);
  - `display_set`: the display set and its range contract (generations, caps
    on items and raw bytes per response, stable order and identifiers);
  - `chunk_cache`: the bounded LRU cache of decoded chunks with containment
    hits;
  - `copy`: clipboard copy (selection checks, limits, joining the texts);
  - `loading`: the decisions of the loading pipeline that need no file, no
    decoder and no registry (projection of the item count, carrying partial
    lines between chunks, pairing raw and decoded line splits, stage timings,
    format and route choices, how a load ends);
  - `text`: decimal rendering for the messages.
- `app/` is the glue that calls the memory accounting, data source, format
  detection, parser and configuration crates of the workspace: the error
  types with their messages, the memory reservations, the copy loop (over a
  `CopySource` that the registry of display sets provides) and the decoding
  cursor. The registry itself and the registration, reload and restore loops
  are not part of this crate.
- `tests/` exercises the library.
