# cloudgamesaver

Two-way sync of game save folders with Dropbox, with its logic verified by Verus.

- `src/` — the verified library:
  - `text.rs`: character-level string operations (search, trimming, replacement, decimal
    numbers, UTF-8 byte positions);
  - `hash.rs`: the Dropbox content hash (SHA-256 over 4 MiB blocks), computed as the data
    streams in;
  - `api.rs`: the parameters of the Dropbox and OAuth requests and the meaning of their
    replies;
  - `paths.rs`: cloud folder paths, relative paths of listed files, upload paths;
  - `folders.rs`: listing the root folders, renewing the access token once if refused;
  - `files.rs`: listing every file under a cloud folder, page by page;
  - `sync.rs`: planning a two-way sync item by item;
  - `state.rs`: the cancellation flag shared by the commands.
- `app/` — the Tauri desktop app: HTTP calls, the file system, the transfers and the
  commands, driving the library's state machines.
- `tests/` — tests of the library on concrete values.
