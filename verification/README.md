# terminal-control

Control and capture terminal applications. A named session runs an application in a
pseudo-terminal and answers requests over a local socket; a shot is what its screen shows, as text,
cells, ANSI bytes or an image.

- `src/` is the library, verified with Verus: screens and the search through them, replay of ANSI
  bytes, colour themes, environment rules, recordings and video timing, the control protocol and its
  capabilities, the life of a session, semantic snapshots, socket and lock rules, input encoding,
  command-line rules, tool requests, and the geometry of drawn screens. It performs no input or
  output: state machines say what to do next, and take what came back.
- `tests/` runs the library on concrete values.
- `app/` is the `termctrl` program: it opens pseudo-terminals, sockets and files, reads the clock,
  and carries out what the library decides. Positions in images are floating point and stay there.

Times are nanoseconds in a `u128` or milliseconds in a `u64`; which one is said where it stands.

The library calls `vt100` to replay ANSI bytes and `serde_json` to carry values of semantic
snapshots. What it takes on trust from them and from `std` is said above each item that does so.
