# anyst

A tunnel for TCP and UDP: TCP connections travel over TLS, UDP packets over the
datagrams of one QUIC connection. Both ends share a password.

`src/` is the verified library. It decides; it does no input or output.

| module       | what it holds                                                   |
|--------------|-----------------------------------------------------------------|
| `config`     | the configuration and the files it needs                        |
| `course`     | the steps of every task, their order, and what failures say     |
| `auth`       | the password handshake, on both ends                            |
| `endian`     | big-endian numbers                                              |
| `fragment`   | the datagram format: splitting and putting together             |
| `reassembly` | whole datagrams, and that receiving undoes sending              |
| `session`    | which session belongs to which local sender                     |
| `udp`        | the loops of the UDP tunnel, on both ends                       |
| `pem`        | certificates and keys out of PEM text, by `rustls_pemfile`      |
| `tls_items`  | the calls into `rustls` and `quinn`                             |
| `tls`        | certificates, keys, and the TLS and QUIC configurations         |
| `text`       | decimal numbers and joined strings                              |

What the library promises as a whole stands in the proof functions whose names
begin with `law_`.

`app/` runs the tunnel on real sockets, with `tokio`, `quinn` and `tokio-rustls`.
`tests/` runs the library.
