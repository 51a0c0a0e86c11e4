# mttp

Benchmarks of parallel patterns (threads, worker pools, processes, map-reduce, fork-join,
pipelines) on CPU-, memory- and I/O-bound tasks, a study of races and deadlocks, and a
simulation of atoms wandering in a crystal.

- `src/` is the library, verified with Verus: the tasks' algorithms (prime counting, divisor
  search, matrix transposition, word and tag counting, bank transfers, the grey-and-watermark
  processing of video frames over the `image` crate), the splitting of work
  into chunks and lanes, the reading of child processes' outputs, the benchmark plans and
  reports, the command-line decisions, the crystal and its snapshots, and the decisions of the
  simulation engine. Each public function states its result in its contract; the laws that
  relate several functions are public proof functions (`lemma_*`).
- `app/` is the program around it: the command line, threads, processes, files, FFmpeg, random numbers,
  floating-point work and the window of the simulation.
- `tests/` runs the library on concrete values.
