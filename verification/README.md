# Ghost FTP core

The rules of the Ghost FTP desktop client as a verified library: executable Rust in
`src/` with contracts that Verus proves, but for those of the small wrappers named below.

- **Profiles and secrets** (`profiles`, `profile_store`, `profile_copies`,
  `step_run`, `connections`, `cloud`): secrets leave a profile before it is written, are stored before the
  metadata and removed only after it, and come back when a connection is opened.
- **Host keys** (`known_hosts`, `rollback`, `digest`): `known_hosts` entries,
  fingerprints, and a replacement of the file that no failure can lose.
- **PATH** (`path_list`, `marker`, `path_integration`): entries are added and removed
  without touching any other.
- **Remote files** (`sessions`, `file_ops`, `permissions`, `checksums`, `duplicates`,
  `archive`, `archive_run`, `sync`, `tree_walk`, `remote_paths`, `local_paths`,
  `remote_commands`, `shell`): what a command asks of the server, and what its reply
  means.
- **The desktop** (`settings`, `external_url`, `recovery`, `uninstall`, `bridge`,
  `agents`, `importers`, `transfers`): startup, links, the database, the
  uninstaller and the Agent Bridge.
- **The command line** (`cli`): versions and remote paths that a local shell has
  damaged.
- **Texts** (`text`, `search`, `pieces`, `numerals`, `json`, `ids`, `error`): what the
  others are written with.

Public proof functions named `law_…` state what holds across functions.

Flows that wait for the outside are state machines: the library says what to do next,
and the application in `app/` does it and reports how it went. What the `sha2`,
`base64`, `serde_json`, `url` and `uuid` crates compute, and how `std::path` reads a
path, stands behind small wrappers whose contracts say what is taken for granted.
