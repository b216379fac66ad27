# rsocket_rust

An implementation of the RSocket protocol whose codec and decisions are
proved with Verus.

- `src/` is the verified library: the frames of the protocol and their
  binary encoding (`frame`), payloads (`payload`), metadata extensions
  (`extension`: MIME types, routing tags, composite metadata), the
  fragmentation of large payloads and the joining of fragments, the
  length-prefixed framing of a byte stream, and the decisions a connection
  makes about each frame (`transport`), and what clients and servers are
  set up with (`setup`). `buffer` declares the `bytes` buffers that the
  codec reads and writes; `frame::laws`, `transport::laws` and the `lemma_`
  functions beside the code state what holds of the library as a whole.
- `app/` is the asynchronous side that runs on tokio: the `RSocket` trait,
  the socket of a connection, the TCP transport, and the client and server
  builders.
- `tests/` exercises the library on concrete values.
