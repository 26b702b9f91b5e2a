# sqtop

A terminal monitor for Slurm clusters: partition pressure, the queue, the
users with active jobs, partition and node detail pages, job detail, and a
reviewed cancel flow.

## Layout

- `src/` is the library, written in Verus and verified: the parsers of the
  `sinfo`, `squeue`, `scontrol` and `sacct` outputs, the aggregation of a
  sample into partition and user totals, the listings with their filters and
  orders, the key and mouse handling of the screen, and the tables, panels,
  dialogs and click areas that the screen shows. Each public function states
  what it returns in its contract; the laws that relate several functions
  are public proof functions (`lemma_*`).
- `app/` is the program around it: command-line options and the config file,
  running the Slurm commands with a time limit, the sampling thread, the JSON
  debug dump, and drawing with ratatui.
- `tests/` runs the library on concrete inputs.
