# notes_core

The core of a note vault whose notes are Typst files, verified with Verus.

A note registers itself with a show rule `#show: type.with(id: "...", ...)`
and links to other notes with `#xlink("id")`. The vault keeps a registry of
note files (`note-paths.csv`, one path per line) and an index built from the
notes' syntax trees.

- `src/` is the verified library:
  - `syntax` — the parts of a `typst_syntax` tree that the vault reads;
  - `ast` — extracting metadata and links from a note's tree;
  - `metadata` — note metadata and its extra fields;
  - `registry` — reading and writing the registry text, with its laws;
  - `note` — note ids, paths, file contents and metadata of new notes;
  - `index` — assembling the index of notes and links, and when it is stale;
  - `query` — search, backlinks and the graph of links;
  - `sync` — planning a sync of the registry with the notes directory;
  - `watch` — deciding what to do on each file-system event;
  - `listing`, `cli` — what the command-line tool prints and resolves;
  - `paths`, `text` — file extensions and character helpers;
  - `state` — the vault handle and the application's shared state.
- `app/` is the `notes` command-line tool: files, processes, the file watcher
  and JSON output around the library.
- `tests/` exercises the library on concrete values.
