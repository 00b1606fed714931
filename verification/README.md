# hydra

A volunteer-computing scheduler and its workers. Idle machines ask the
scheduler for work on Monte-Carlo π and Mandelbrot jobs, compute chunks of
them, optionally inside an enclave with encrypted data, and send the results
back.

## Layout

- `src/` — the verified library.
  - `job.rs` — one job: creation, taking back returned chunks, handing out
    chunks sized to a worker's pace, reassigning overdue chunks, and the
    rendered pixels in order.
  - `scheduler.rs` — the scheduler's jobs, workers and run queue, and every
    request of its API as a state transition.
  - `ordering.rs` — a verified stable merge sort by numeric key.
  - `chunking.rs` — adaptive chunk sizes, cutting points into chunks, bounded
    histories.
  - `grid.rs` — regions' carbon intensity and electricity price.
  - `tokens.rs` — listings of the token ledger, newest first.
  - `worker.rs` — the byte layout of chunk parameters and results, the layout
    of a rendered row, the Monte-Carlo count, and what a worker does with a
    handed-out chunk.
  - `confidential.rs` — AES-256-GCM encryption of chunk data and the dispatch
    of chunk computations.
  - `tiling.rs` — the adaptive tiling handle.
  - `clock.rs` — the wall clock.
  - `laws.rs` — properties that span several requests.
- `tests/` — tests of the library.
- `app/` — the HTTP server, the worker's network loop, and the
  floating-point parts: progress percentages, paces, the Monte-Carlo point draw,
  the Mandelbrot colouring and the token ledger.
