# znappr

A ZFS snapshot manager. A JSON configuration lists jobs; each job names a
dataset, a label (prefix, strftime date, postfix), cron-like `when` rules and a
purge rule. Run from cron, znappr takes the snapshots of the jobs that are due
and destroys the old snapshots of those jobs.

The decisions are a Verus library under `src/`, each with a contract:

- `cli` — the command line.
- `config` — the configuration's types and the label characters allowed.
- `configtest` — the configuration test (`-c`) and its exit status.
- `schedule` — `when` values, which jobs are due, and the plan of a run.
- `snapshot` — the label and the `zfs snapshot` arguments of a job.
- `purge` — the snapshot listing and which snapshots a purge rule destroys.
- `filesystem` — the root and home datasets of a `zfs list` listing.
- `generic` — the generic configuration printed by `-p`.
- `text` — splitting, lines, words and number parsing, as `str` does them.

`app/main.rs` is the program: it reads the clock, the command line and the
configuration file, runs `zfs` and `grep`, and logs.
