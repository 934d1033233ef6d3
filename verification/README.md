# clash_inbound

Inbound listeners of a proxy: Snell, Hysteria2 and VLESS over websockets, and
the configuration that they are built from.

`src/` is the library. It holds the formats, state machines and rules, each with
a contract that Verus proves:

- `config`: listeners as they are configured, what tells them apart, what is
  wrong with them, and what each is run by;
- `snell`: profiles, records, requests and the relay of a connection;
- `hysteria2`: the QUIC codec, datagrams and their fragments, sessions, who is
  let in, what strangers get to see, and certificates from an ACME directory;
- `vless`: the websocket handshake and the request behind it;
- `net`, `text`, `web`, `digest`, `buffer`, `pending`: what these are made of.

The library performs no I/O. Where it needs an outside crate it calls it through
a small function whose contract is believed rather than proved; the comment
above each says what it claims.

`app/` holds what runs around the library: sockets, TLS, files and timers, and
the YAML form of the configuration. `tests/` runs the library.
