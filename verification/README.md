# worker

A bounded multi-producer, multi-consumer channel with synchronous and
asynchronous ends, whose contracts and invariants are machine-checked.

Layout:

- `src/worker.rs`: the channel. `Channel` is a ring of stamped slots
  (Vyukov's scheme: a slot stamped `p` waits for the send at position `p`,
  one stamped `p + 1` holds that send's item) together with the lists of
  parked senders and receivers. Its invariant and its refinement of a plain
  FIFO queue are proved. `Sender` and `Receiver` share one `Channel` behind
  vstd's verified `RwLock`; `send_step` and `recv_step` decide what a blocking
  send or receive does after each attempt.
- `src/model.rs`: the queue model that `Channel::try_send` and
  `Channel::try_recv` refine, and the laws proved of it (round trip, FIFO
  order, capacity bound, what a refused send or an empty receive answers).
- `src/wakers.rs`: the `WakeSignal` trait, the list of waiting parties, and
  `wake_round`: which waiting signals a wake-up round wakes (each in turn up
  to the first delivered wake-up), with its laws.
- `src/async_wakers.rs`: `AsyncWaker`, the wake signal of a task.
- `src/async_chan.rs`: `SendFut` and `RecvFut`, one poll attempt each.
- `app/lib.rs`: what needs threads or `Pin`: the thread wake signal,
  blocking `send`/`recv` loops, and the `Future` impls.
