# filecopier

A copier and mover of files and directory trees that can be interrupted, resumed
and verified. `src/` is the verified library: it decides; `app/` is the program
around it: it reads, writes and asks the operating system.

## Library

- `config`, `cli`: what a job is asked to do, and which configurations are valid.
- `engine`: the plan of a job (`orchestrator`), the order of its work (`agenda`),
  the two engines (`block` for large files, `swarm` for small ones), moves
  (`move_op`) and simulations (`dry_run`, `report`).
- `pipeline`: the two ends of the block pipeline, and why a copy that received
  every block passes verification.
- `checkpoint`: what a job has done, and which of it still holds when it is
  resumed.
- `hash`: BLAKE3, SHA-256 and XxHash64 behind one interface.
- `bandwidth`, `buffer_pool`, `telemetry`: the token bucket, reusable buffers and
  counters.
- `os`: storage devices, file attributes, the Windows clipboard.
- `path`: paths as text, in the styles of Unix and of Windows, and when two of
  them are the same.
- `path_map`: maps and sets in which paths that are the same are one key.
- `text`, `seqs`: helpers.

Properties that span several functions are stated as proof functions whose names
start with `law_`.

What the library takes from other crates stands behind small trusted functions,
each with the claim that is made of the outside function: the hash functions
(`blake3`, `sha2`, `twox-hash`), the bounded channel under the buffer pool
(`crossbeam`) and the clock (`chrono`). Of the standard library it trusts, in the
same way, what `Hash` of `Path` feeds a hasher, `str::to_lowercase` and
`String::push`.

## Program

`app/` runs jobs: `job` walks the agenda, `block` and `swarm` copy, `dry_run` and
`checkpoint_file` look at the disk, `paths` turns native paths into text and back,
`unix` and `windows` speak to the system.
