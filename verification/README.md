# ohmcp

A binary transport for MCP (Model Context Protocol) on one machine. `src/` is the
protocol as a library whose behaviour is proved with Verus; `app/` is the program
around it: sockets, shared memory, tasks and the command line.

| module | what it holds |
| --- | --- |
| `frame`, `transport`, `rpc` | frames, the two ends of a framed stream, JSON-RPC |
| `auth`, `crypto`, `acl` | challenge and response, session keys, sealing, grants |
| `compress`, `cache`, `pipeline` | what happens to a payload on its way |
| `shm`, `ringframe` | the ring for large payloads and the frames that refer to it |
| `session`, `client`, `server` | the decisions of both ends of a connection |
| `tools`, `builtin`, `message` | the registry, what is built in, message bodies |
| `baseline` | a plain line-based transport to measure against |
| `softbus` | a byte stream over a session of blocks |
| `codec`, `hex`, `text`, `error` | numbers, texts and errors |
| `buffer`, `json` | the byte buffers of `bytes` and the values of `serde_json` |

The library calls `bytes`, `serde_json`, `hmac`, `sha2`, `x25519-dalek`,
`chacha20poly1305`, `lz4_flex` and `rand` through wrappers in `buffer`, `json`,
`auth`, `crypto` and `compress`, and the clock through two in `cache`. What each
wrapper claims of the call stands above it and is not proved.

Properties of the whole are public proof functions at the end of their modules,
for example `frame::decode_undoes_encode`, `client::handshake_agrees`,
`shm::write_keeps_held_records` and `client::keys_are_resolved`.
