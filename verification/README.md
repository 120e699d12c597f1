# ntex_h2

HTTP/2 framing, header compression, flow control and connection state, written in
Rust and verified with Verus.

The library under `src/` works on plain values and does no input or output. A
connection is a state machine: its operations take frames and requests, and leave
behind the actions that follow from them (frames to write, tasks to wake, timers to
start). Every function states what it does to the state, and Verus proves it.

| Module | What it holds |
| --- | --- |
| `frame` | the frames and their wire format |
| `hpack` | header compression: integers, Huffman code, tables, blocks |
| `codec` | reading frames off the wire and writing them |
| `connection` | the state of a connection and everything a frame does to it |
| `stream`, `stream_data` | streams, their payload and their receive capacity |
| `window`, `flow` | flow-control windows |
| `dispatcher`, `control`, `default` | what follows from a frame, and how a connection ends |
| `client` | streams of a client, client identifiers, the pool of connections |
| `server`, `request` | the handshake and the shutdown of a server, requests |
| `timer` | the timeout for send capacity |
| `http` | names, values, methods and header maps of the `ntex-http` crate |

Properties that span several operations are public proof functions: `codec::laws`,
`hpack::laws` and `connection::laws` hold most of them. Among them: what was encoded
is decoded again, a delimited frame may come in any pieces, payload is sent in order
and within the windows, a reset is announced once, frames that were on their way when
a stream was reset are tolerated, the active streams are the open and the reserved ones.

What is not proved is what the outside crates do. The functions marked
`external_body` make these calls, and their doc comments say what is relied on.

`tests/` runs the library on concrete values. `app/` connects it to ntex transports,
services and timers.
