# emmm_reconcile

The disk-reconciliation core of a mod manager for 3DMigoto-based games,
written in Verus. The filesystem decides what a mod library holds and whether
each mod is enabled (a `DISABLED ` prefix on a folder name switches it off);
the index follows the disk. The library computes what a reconcile pass does
and proves it: identity keys of folders, change scoping, folder-name
conflicts, rename confirmations, projection write plans, runtime-sync
bookkeeping, onboarding sessions, settings validation, source recovery and
the order in which a new mods directory is applied and, on failure, undone,
and how one prepared onboarding game is applied or rechecked.

Layout:

- `src/` — the verified library. `path_rules`, `text`, `order`, `sets` and
  `digest` hold the shared rules (path components, folder keys, stable sorts,
  stable ids); `settings` the settings model and its checks; `storage` the
  duplicate-scan bookkeeping; `reconcile/` the reconcile engine, one module per
  concern. Public `law_*` proof functions state properties that span several
  operations.
- `tests/` — tests run against the compiled library.
- `app/` — a command-line shell that reads a mods folder from disk, hands the
  library plain values and prints its reports as JSON; it also holds the
  waiting loops (initial recovery, runtime-sync worker) and the driver that
  applies a new mods directory step by step around the library's decisions.
