# sol_p4_tools

Perforce (P4) toolkit for Tauri v2 applications, as a Verus-verified
library.

- `src/` is the verified library. It holds what the toolkit decides and
  computes: the reading of `p4` output (`fstat` records, `opened`, `where`,
  `clients`, client specs, `switch`, `info`, the JSON lines of
  `-Mj -ztag changes` and `users`), the errors that failed commands turn
  into, the argument lists of the commands, the order in which a
  workspace's stream, root and data directory are looked for, the
  self-update's reading of `p4 sync`, the 16-way partition postfix, and
  the reading of metadata JSON files (byte order mark, parsing, the
  records of a partition file tagged with their source file).
  Operations that run several commands or file operations in turn
  (`stream::stream_step`, `changes::PendingChanges`,
  `self_update::SelfUpdate`) are state machines: the caller performs what
  each step asks for and hands back its outcome.
- `app/` runs the processes, probes the file system, holds the
  process-wide connection override, reads directories and writes the JSON
  files, and
  carries the Tauri commands and the serde types.
- `tests/` exercises the library on concrete inputs.

Modules of `src/`: `text` (whitespace, trimming, lines, search over
`Seq<char>`), `number` (decimal parsing and printing), `encoding`,
`command` (process outcomes, the connection override), `queries`,
`fstat`, `changes`, `p4`, `stream`, `workspace`, `diagnostics`,
`metadata_io`, `partition`, `self_update`, `sync`.
