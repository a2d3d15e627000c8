# xtra

A tiny actor framework whose core is proved correct against its contracts.

- `src/` is the verified library: the channel behind an actor's address (`inbox`: its
  ordered, priority and broadcast mailboxes, capacity and backpressure, parked senders and
  waiting receivers, and the reference counts of senders and receivers), the states of
  sending and receiving a message (`send_future`, `broadcast_future`, `inbox::rx`), message
  envelopes and their priorities (`envelope`), and the laws that hold across these
  operations (`inbox::laws`, `inbox::parked`).
- `app/` is the asynchronous glue: actors and handlers, addresses and contexts that keep the
  channel behind a lock, the run loop, and spawning onto tokio.
- `tests/` exercises the library on concrete values.
