# clean_up

The verified core of an interactive macOS cleanup tool: six scanners (dev
artifacts, system caches, app leftovers, large and old files, unused apps,
Homebrew cleanup), an app uninstaller, Spotlight maintenance, and moving
selected items to the Trash — never deleting them.

## Layout

- `src/` — the library, verified with Verus. Every function carries a contract;
  the properties that span functions are public proof functions (`lemma_*`).
  - `scanners/` — what each scanner flags, as pure functions and as walk state
    machines (`ArtifactWalk`, `LargeFileWalk`, the git repository check) that the
    caller feeds with directory listings.
  - `utils/trash.rs` — the path blocklist and the batch / single trash flows.
  - `utils/apps.rs` — bundle IDs, `mdfind` / `mdls` output, app data matching.
  - `utils/fs.rs` — directory size walk.
  - `commands.rs` — icns icon extraction, icon cache, Spotlight status, permissions.
  - `findings.rs` — stable sort by size and scan result totals.
  - `text.rs`, `lexical.rs` — string functions with specifications.
  - `pattern.rs` — the calls into the `regex` crate.
- `tests/` — tests on concrete values.
- `app/` — the unverified shell: processes, file system, clock, and the
  serialisable copies of the library's types.
