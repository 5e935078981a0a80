# revolver

A UPnP/DLNA media server for a music library, with its logic verified in Verus.

- `src/` is the library. Every function states in its `ensures` what it returns;
  what holds across functions is stated in public proof functions beside them.
  - `browse` — categories, facets, albums, discs and tracks as they are browsed, and
    searches
  - `db` — the schema and its migrations, the statements on albums, tracks, settings
    and stored state, and the similarity of texts
  - `scan` — walking the library, reading tags, keeping tracks, and the report
  - `http` — streaming and its ranges, pictures, events, the admin pages, control
    replies
  - `art` — choosing pictures and the picture cache
  - `upnp` — object ids, what is listed of an object, search criteria and service names
  - `ssdp`, `identity`, `random`, `config`, `config_catalog`, `state`, `normalize`,
    `path`, `json`, `text`, `error`
- `app/` is the program around it: sockets, files, the database and tag readers.
- `tests/` runs the library, on a real SQLite database where it asks for one.

The library never touches the database itself. What takes several statements is a
function from the answers so far to the next step: a statement to run, or the result.
