# rusync

A minimalist `rsync`: `rusync SOURCE DESTINATION` copies every file of
SOURCE that is missing in DESTINATION, older there, or of a different size,
recreates symlinks, and shows its progress on one line. `--include` and
`--exclude` take regular expressions over relative paths; `--sleep-interval`
syncs again and again, sleeping in between.

Layout:

* `src/` is the library, verified with Verus: the interval parser, the
  include/exclude rules, the copy rule, the decisions of the walk and
  progress workers, and the progress, scanning, waiting and summary lines
  (the one-line messages around them, in colour, are written by `app/`). Contracts state what
  each function returns; proof functions state the rules that hold across
  calls (groups of an interval are summed, excludes win over includes, the
  statistics count exactly the messages received, ...).
* `app/` is the program around it: command line, file system, threads,
  channels, clocks and the terminal.
* `tests/` runs the library on concrete values.
