# drive_async_iterator

A driver owns an async iterator and runs a body next to it. The body asks for items through a handle
with an async `next` method. While the body waits for something else, the driver polls the iterator
for progress, so that work inside the iterator never stands still behind the body.

- `src/` is the verified library: the state that the driver and its handles share, each step they take
  on it, and the proofs of what holds of every history of such steps. Polling is done through closures,
  so the library knows neither wakers nor pinned futures.
  - `state.rs` the shared state and the steps on it
  - `handle.rs`, `cell.rs`, `call.rs` the handle, and the cell through which the state is shared
  - `history.rs`, `laws.rs` histories of steps, and what holds of all of them
  - `never_done.rs` an adapter for iterators that can be given more work
  - `once.rs` two small futures
  - `input.rs` the input of the procedural macro
- `app/` is the `drive!` macro and the futures around the library.
- `tests/` runs the library, on its own and with a small executor.
