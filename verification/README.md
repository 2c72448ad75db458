# technoafandi

The logic of the TechnoAfandi FC 26 activation tool, verified with Verus.

- `src/` — the library, every function with a contract proved by Verus:
  - `activation` — the activation run as a state machine (`step`), its
    messages, and the laws of a run (it ends, reports once, restores the
    DLLs it hides, never reports progress backwards, succeeds only without
    a ticket);
  - `download`, `smart`, `http` — splitting downloads into parts, resuming,
    retrying, LFS fallback, and reading sizes from response headers;
  - `files`, `digest`, `config`, `versions`, `watch`, `update`, `locate`,
    `timefmt`, `text` — file checks, hashes, anadius.cfg, the game version,
    the ticket watch, self-update, the folder search, time formatting, and
    text helpers. Laws stated there include that the release table keeps
    build order and is one to one, that later moments read as later text,
    and that a media URL is never rewritten again.
- `tests/` — tests of the library on concrete values.
- `app/` — the Tauri program around the library: windows, commands, files,
  network, processes, and progress percentages.
