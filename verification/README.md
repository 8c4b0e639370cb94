# kwokka_io

Completion-side bookkeeping for an `io_uring` worker, verified with Verus.

An `io_uring` worker hands operations to the kernel and reacts when they
complete. In between it owns the bytes of every operation in flight, remembers
which task waits for what, and must cope with futures that are dropped before
their operation completes. This crate is that bookkeeping: which slot an
operation's bytes live in and when it may be reused, where a completion goes, and
what becomes of the descriptors and provided buffers that nobody will take.

## Layout

- `src/addr` -- socket addresses and their `sockaddr_storage` bytes.
- `src/buffer` -- slot registries: single-shot buffers (`oneshot`), accept and
  recv streams (`multishot`), the provided-buffer ring (`ring`), registered
  buffers and descriptors (`registration`).
- `src/boundary/cancel` -- the cancels of dropped futures, and the `user_data`
  markers that route completions.
- `src/boundary/seam` -- what a future polls through (`state`), and what the
  completion drain calls (`drain`).
- `src/driver.rs`, `src/operation.rs` -- the backend's queue and the requests in
  it.
- `src/sys.rs` -- the platform constants taken from `libc`.
- `tests` -- ordinary tests of the compiled library.
- `app` -- syscalls, mapped memory, per-thread tables, and the standard library's
  address and error types around the library.

## Reading the contracts

Each stateful type has a view, a plain mathematical value (`InflightSlots`,
`RecvSlots`, `PoolState`, `SeamState`, ...) whose spec methods say what every
operation does to it. An executable method's `ensures` names the method of the
view that describes it. What holds across calls stands in the `laws` modules and
beside the types as public proof functions.

Two naming habits. A constructor called `mapped` takes the errno with which the
system refused the memory, if it did, and reports it; `new` is the granted case.
A function called `try_...` asks for nothing beyond well-formed values: it
returns a refusal, with nothing changed, exactly where the precondition of its
namesake fails.
