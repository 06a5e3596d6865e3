# rustystreamer

A small home video server: it lists videos and nested collections as HTML
pages, streams video files in byte ranges, and remembers playback positions.

- `src/` is the library, verified with Verus: parsing of `Range` headers and
  the partial-content answer, filling of the HTML templates, full collection
  titles, the uncategorized-video filter, the SQL parameters, and the
  in-memory video index. Its contracts state each result over `Seq`, `Map`
  and spec functions; the laws of the library are proof functions beside
  the code they speak of.
- `app/` is the actix-web server around it: routes, SQLite access, files,
  and the serde forms of the library's types.
- `tests/` runs the library on concrete values.
