# commlib

The protocol and bookkeeping core of a service/network library, written in
Verus: Verus proves every function under `src/` against its contract. Where
a result comes from the clock or from randomness, the contract states what
holds of every reading.

- `framing`, `packet`, `packet_builder`: length-prefixed packets cut out of a
  byte stream; chunking never changes the packets.
- `net_packet_encdec`: packet headers per packet type, the XOR obfuscation of
  client packets, packet-number replay checks; each header reads back as it
  was written.
- `resp`, `buffer`, `reply_builder`, `redis_reply`, `redis_commander`,
  `redis_cmds`: the Redis wire protocol, replies built incrementally, commands
  encoded, and the login and reply-dispatch logic of a connection.
- `wheel_timer`: virtual-time timer entries by deadline; entries expire at
  their deadline, in order.
- `http_client`, `request_parser`, `response_writer`, `static_files`: http
  request settings, request accumulation under a size limit, response bytes,
  refusal of static-file paths that leave their directory.
- `client_link`, `tcp_server`, `node_state`: connection state and service
  loop decisions.
- `db_value`, `db_addr`: column value conversions.
- `base64_codec`, `md5_hash`, `blowfish_cipher`, `rand_bytes`, `stop_watch`,
  `thread_pool`, `ids`: utilities; each call into another crate
  or the clock sits behind a small trusted wrapper.

`app/` holds what runs threads, reads clocks and formats floats: the thread
pool, the closure-driven timer, event handlers, and the glue to `http` and
`serde_json`.
