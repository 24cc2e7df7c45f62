# vt_muxer

A multiplexer that carries many logical, buffered connections over one byte stream, such as a TCP
connection. Each connection is named by a socket address. What it sends is cut into frames: a header
of twenty bytes, which names the connection and announces a length, and up to 65535 bytes of payload.
A header without payload opens a connection, or closes it if it is open.

The library under `src/` is verified with Verus. It performs no input or output: it decides what goes
onto the stream and what a byte that came off the stream means, and the code around it under `app/`
owns the stream, runs the futures and wakes the tasks.

| module          | what it holds                                                                 |
|-----------------|-------------------------------------------------------------------------------|
| `integers`      | integers in the byte order of the wire                                         |
| `thin_addr`     | addresses that hold IPv4 and IPv6 in one form                                  |
| `protocol`      | the frame format                                                               |
| `packet_buffer` | the frame that a connection is filling or sending                              |
| `write`         | the sending side of a connection                                               |
| `poll_mutex`    | waiting for the stream's lock from calls that must not block                   |
| `read`          | the receiving side: the buffer of a connection, the open connections, the state |
| `error`         | what can go wrong                                                              |
| `outside`       | what the library takes from other crates, and holds to be true of them         |
| `stream`        | what a connection puts onto the stream                                         |
| `shared`        | what connections that share a stream put onto it together                      |
| `delivery`      | what the receiving end makes of a stream                                       |

The last three hold no executable code. They state what the others come to together: as long as the
stream does not fail, what a connection has taken in arrives at the other end, whole, once and in
order, whatever other connections the stream carries and in whatever pieces it comes.

A connection should be shut down. One that is dropped without having been is closed by a task that
finishes a frame of which part is on the stream; a frame of which nothing is on the stream is lost.
