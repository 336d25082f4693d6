# fs_storage

A key-value storage kept in a single text file, with its logic verified by
Verus.

The file holds a header line `version 2`, then the entries as one compact
JSON object of strings. The library decides everything about that format:
how the header is checked, how the file text is split into lines and read
back, what text is written, and how the in-memory storage changes on `set`,
`remove`, reads and writes. Its contracts are stated over a model of the
storage (label, path, time, and the entries as a map of character
sequences); the main law is that the text a storage writes reads back as the
entries it held.

Layout:

- `src/text.rs`: characters, decimal numbers, and line splitting.
- `src/json.rs`, `src/entries.rs`, `src/paths.rs`: the calls into
  `serde_json`, `BTreeMap` and `std::path`, with the contracts they are
  trusted to meet.
- `src/file_storage.rs`: the storage, its file format and its laws.
- `src/append.rs`: the decisions of the `file append` command.
- `src/watch.rs`: what the index watcher does for each event.
- `app/`: the program around the library: file system access, the command
  line, the JVM bindings and the watcher loop.
- `tests/`: tests of the library on concrete values.
