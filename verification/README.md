# task_profiler

The bookkeeping of a sampling profiler for macOS tasks, verified with Verus.

A profiler follows one task: which threads are alive in it, which libraries are loaded into it,
and what the recorded profile is told about both. A named thread that ends leaves its place in the
profile to the next thread of the same name, and a task that ends does the same for the next task.

- `src/` is the verified library. It does not talk to the kernel. What the kernel says comes in as
  values, and what has to be asked next goes out as an action (`sampling`). `laws.rs` states what
  holds of the profiler as a whole.
- `tests/` runs the library.
- `app/` connects the library with the kernel, with files and with the other parts of a profiler.

Calls into other crates (`framehop`, `fxprof-processed-profile`, `samply-symbols`, `object`,
`flate2`, `memmap2`, `crossbeam-channel`) are declared where they are made, and each declaration
says what is relied upon.
