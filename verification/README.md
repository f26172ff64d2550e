# aswitch

Atomic account switching for the command line programs of coding assistants, verified with Verus.

A saved account is a copy of the credential, and of the files beside it, that such a program keeps.
Switching saves what is live for the account that was active, and puts the saved state of another
account in its place. Where a step fails, the old live state is written back.

## Layout

- `src/` is the library. Everything in it is verified.
  - `text`, `text_map`, `json`, `path`, `pattern`, `time`: texts, maps, JSON values, paths, regular
    expressions and points in time.
  - `plugin`: plugin manifests, their rules, their placeholders, and the catalog of plugins.
  - `identity`: who an account belongs to.
  - `registry`, `account`, `switch`, `session`, `store`: saved accounts, switching between them,
    homes for single shells, and where live credentials are kept.
  - `usage`, `quota` and a module for each provider: what accounts used, and what is left to them.
  - `cmd`: what the commands decide and print.
  - `tui`: what the interactive screen holds and shows.
- `app/` is the program around the library: arguments, files, processes, requests and the terminal.
  Percentages and sums are in floating point and are computed there.
- `tests/` runs the library.

## What is proved

Each function states what it returns for every input. Beyond that, public proof functions state laws
of the library as a whole. Among them:

- A switch is at each moment on the way to the new state, back at the old one, or says that it could
  not be undone (`switch`).
- Switching to another account and back restores the live state (`switch`).
- Adding, renaming, removing, switching and clearing keep the registry consistent (`account`,
  `switch`, `cmd::shell`).
- A saved registry is read back, whatever the way to write it down, and making the directories of
  the program again changes nothing (`registry`, `paths`).
- Usage that is read again while it is kept is the same, and a metric is made of the records that
  count (`usage::snapshot`, `usage::records`).
- After a refresh the next request carries the new token, and nothing else in the credential is lost
  (`quota` and the modules of the providers).
- Letting go of the accounts of a project changes the nearest file alone (`cmd::project`).
- The scope of a shell wins over that of a project, which wins over the global one (`cmd::scope`).
- A shell reads back what was quoted for it (`cmd::session`).

What comes from other crates (JSON, times, regular expressions, encodings) is called through small
functions whose contracts are not proved. They are marked `external_body`.
