# rustmetaverse

A client library for Second Life / OpenSimulator grids whose core is
verified with Verus.

- `src/` is the verified library: the LLUDP packet header and zero-coding,
  bounds-checked buffer reads, the LLSD value model with its binary,
  notation and XML codecs, the bytes of every message the client sends,
  the decoding of the messages it reacts to, the list of reliable packets
  awaiting acknowledgement, the login response, and the decisions of the
  circuit and region handshakes. Calls into `bytes`, `uuid`, `chrono`,
  `base64`, `xml-rs` and `md5` stand behind small trusted items whose
  contracts are stated in their doc comments.
- The round-trip laws (zero-coding, header, binary, notation and XML LLSD),
  the acknowledgement laws of the reliable-packet list and the bound on
  circuit attempts are public proof functions beside the code they speak of.
- `tests/` runs the library on concrete values.
- `app/` is the asynchronous runtime around it: the UDP socket, the packet
  dispatcher, the HTTP login request, the clock, and the floating-point
  vector math and round-trip statistics.
