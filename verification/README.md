# coursework

A small collection of programs with their logic in a library whose behaviour
is stated in contracts and proved with Verus.

- `src/scheduler.rs`: tasks and the dispatcher of a task-dispatch simulation,
  first-in first-out or weighted round robin (two CPU tasks for each IO task),
  with its state model and the laws it keeps (no task lost, work-conserving,
  FIFO order, IO progress, draining).
- `src/generator.rs`: the seeded `rand` generator, with a record of its seed
  and of every draw (type, range and value) taken from it.
- `src/workload.rs`: experiment settings and the seeded random workload (task
  kinds, durations, pauses between arrivals) and the draws each one takes.
- `src/stats.rs`: sums, counts and maxima over completed tasks, workers and
  queue-length samples.
- `src/text.rs`: Unicode whitespace, splitting into words, the most frequent
  word of a text, and trimming.
- `src/file_ops.rs`: the file-operations menu: menu choices, the shell command
  for each operation and the messages about its outcome.
- `app/`: the programs themselves: threads, channels, clocks, files, the
  terminal, floating-point averages, and the bank account with its `f64`
  balance.
