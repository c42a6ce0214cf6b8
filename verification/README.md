# sqlite_watch

A desktop browser for SQLite databases. The library under `src/` is verified with Verus:

- `text`: decimal and hexadecimal renderings, padding, UTF-8 byte lengths;
- `value`: the cell values and their grid and inspector renderings (with the blob hex dump);
- `paging`: page counts, page clamping within the first 1000 rows, and the SQL that lists tables,
  counts rows and fetches a page (names quoted, WITHOUT ROWID tables ordered by their key);
- `viewer`: the browser's state, its model, and how it answers each action and each read;
- `laws`: properties proved over those models.

`app/` holds the program around it: the rusqlite reads, the rfd file dialog and the eframe window.
