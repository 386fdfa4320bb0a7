# rust_lab

A collection of small data structures and encodings, verified with Verus.

- `src/` is the verified library:
  - `queue`: a fixed-size ring-buffer queue (first in, first out; one slot
    kept free), and byte reads from a queue of bytes;
  - `graph`: nodes linked by shared references, with breadth-first listing
    and search;
  - `byte_stream`: a mock stream that replays a queue of recorded calls;
  - `framing`: length-prefixed messages;
  - `list_hash`: the byte layouts that the list hash feeds to a hasher;
  - `fib`: Fibonacci numbers, plain and memoised;
  - `typemap`: byte forms of string payloads;
  - `codecs`: routing of user requests to a peer;
  - `borrow`, `intrusive`, `proto::db`, `refderef`, `lifetimes`, `procs`,
    `timer`: small value types and helpers.
- `app/` runs the parts that do I/O or need shared mutable state: TCP nodes,
  futures over mock streams, `std::io` traits, and the snapshot and object
  handles shared through `Rc<RefCell<..>>`.
- `tests/` exercises the library on concrete values.
