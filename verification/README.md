# selia

A small graph database (vertices, relationships, types and indices stored in
fixed-size records), the wire protocol of its server and client, and the
handshake both sides run, written in Verus.

Layout:

- `src/` — the verified library. Files of the database are held as byte
  images (`io::file_image`); reads and writes of records are specified over
  those images, and the relationship rings of each vertex are kept by
  `io::update_ptrs`. `server/` holds the message formats, their encodings and
  the decisions of the server and client handshakes; `types/` and `index/`
  hold type records and property indices.
- `tests/` — tests run against the compiled library.
- `app/` — the command-line program: TCP client and server, threads,
  channels and the files on disk.
