# Async broadcast channel

A multi-producer multi-consumer broadcast channel in which every active receiver gets a clone of
every message, once and in order, verified with Verus. A receiver misses a message only if it was
given up to make room: replaced in overflow mode, or dropped when the capacity was lowered.

- `src/` is the library. Handles (`Sender`, `Receiver`, `InactiveReceiver`) and waiting operations
  (`Send`, `Recv`) work on the state of a channel, `Inner`, which they take as an argument.
  - `model.rs` is the mathematical model that the contracts speak of, `steps.rs` proves that every
    operation keeps it well formed, and `laws.rs` states what holds of several operations together.
  - `number.rs` numbers the messages of a channel without ever running out.
  - `signal.rs` wakes waiting tasks by means of the `event-listener` crate. It holds most of the
    declarations that are taken on trust; two for `VecDeque` stand in `inner.rs`, and those for
    writing a text in `errors.rs`.
- `app/` puts the state behind a lock and gives the handles what scopes, clones, futures and streams
  ask for.
- `tests/` runs the library.
