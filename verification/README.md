# vnc

The client side of the RFB protocol (VNC): security types, VNC and Apple Remote Desktop
authentication, the start of a connection, the decoding of server messages and the traffic between
server and client.

- `src/` is the library, verified with Verus. It does no input or output: each dialogue is a state
  machine that says what to read or write next and takes what has come of it.
  - `client/auth.rs`: the choice of a security type, and VNC authentication.
  - `client/security/`: DES for VNC authentication, and Apple Remote Desktop authentication.
  - `client/startup.rs`: from the shared flag to the request for the first frame.
  - `client/decoding.rs`, `client/traffic.rs`: the two tasks of a running client.
  - `client/connection.rs`: input, events, and closing.
  - `biguint.rs`, `wire.rs`, `types.rs`, `error.rs`: numbers, and the vocabulary of the client.
- `app/` runs the library on streams, queues and tasks of tokio.
- `tests/` are the tests of the library.

Ciphers, digests, big integers and random numbers come from the crates `des`, `aes`, `md-5`,
`num-bigint` and `rand`. Each call into them stands behind a small function whose comment says what
is taken for granted of it.
