# vfio_user

A vfio-user protocol library, verified with Verus, and a client and server
built on it.

- `src/` is the verified library:
  - `le`: little-endian integers, and the laws that reading gives back
    what writing wrote;
  - `bindings`: the VFIO structures and constants, with the wire layout of
    the structures the protocol carries;
  - `proto`: commands, header flags, DMA flag sets and the wire layout of
    every message, each with its two round-trip laws;
  - `caps`: the region capability chain, its sparse mmap areas, and the
    proof that a chain that ends does so within a bound that can be checked;
  - `client`: the requests a client sends and what it keeps of the replies;
  - `server`: what a server does with each request, and the laws that its
    replies answer their requests;
  - `scm`: which passed file descriptors are taken from a received message;
  - `error`, `outside`: the error type and the outside types it carries.
- `app/` holds the socket I/O: the `Client` and `Server` over Unix sockets,
  the device backend trait, the JSON capabilities, and `SCM_RIGHTS`
  message passing.
- `tests/` runs the library on concrete messages.
