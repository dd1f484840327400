# ethercat_pdu

A storage of PDU frames, and the loop that they take: a frame is allocated, filled, made
sendable, picked up by a sender, completed when its reply comes in, read, and given back. The
library is verified with Verus.

- `src/frame.rs`: the states of a frame, its header, and the element that holds both with a data
  buffer.
- `src/storage.rs`: the storage, and the view of it that the contracts speak of.
- `src/handle.rs`: a handle for each stage of a frame's life.
- `src/pdu_loop.rs`: allocation, sending and reception put together.
- `src/sender.rs`: what is handed to a sender, and the record of it.
- `src/waker.rs`: wakers, the `spin` lock that one waits in, and the record of those woken. What
  is taken on trust stands here.
- `src/wakes.rs`: the record of the wakers that a storage has woken, and of the frames at the
  time.
- `src/laws.rs`: what holds across operations.
- `src/probe.rs`: a client whose task waits for good.
- `app/`: the loop shared between tasks, with its futures, and a program that runs it.

The library works on exclusive borrows. Each operation is one step, as an atomic exchange of a
frame's state would be, and whoever shares a storage puts a lock around it, as `app/shared.rs`
does.
