# qlaster

Shared-memory data streaming for colocated services. Account, transaction and
slot updates are fanned out from one sender to local consumers, each over a
byte ring in shared memory, with a Unix domain socket for handshake and
subscriptions and a wakeup descriptor beside each ring.

## Layout

- `src/` is the verified library:
  - `types/`: the frames of the protocol, their binary form, and the laws that
    what was encoded is what is decoded;
  - `sender/`: what a subscriber asked for (`filter`), the slots and their
    tenants (`manager`), the fan-out (`dispatch`), the control socket (`shm`);
  - `consumer/`: handshake, subscriptions, and the bounded queues of updates;
  - `shm/`: frames in the ring and runs of it, frames with a descriptor
    attached, and what the outcomes of system calls ask for;
  - `wire`, `transport`, `metrics`, `error`, `keyset`, `pubkey`, `le`, `text`:
    stream framing, sinks, measurements, errors, and the small change;
  - `buffer`, `lz4`, `schema`, `bloom`, `queue`, `clock` and parts of
    `shm/ring`: what the library takes from other crates and from std, each
    behind a stated contract that is not proved here.
- `tests/` runs the library.
- `app/` is the ordinary Rust around it: sockets, files, descriptors, tasks.

## What is proved

Decoding is stated for every byte sequence, with the first fault that is
reported. Every frame that the library encodes decodes to what it was made
from. A filter matches exactly the keys and owners that were asked for, though
a bloom filter is asked first. A dispatch reaches the tenants that want the
update, and no others; one that wants it loses its slot only where its ring did
not take the frame. A token of a former tenant is not good again, as long as the
64-bit numbers of the connections do not wrap around: each is above all that
were given out before. Over any run of pushes and pops, with a close behind
them, a ring gives back whole frames in order, if its queue serves its one
reader in order. A consumer's queues keep the latest updates of their stream in
order.
