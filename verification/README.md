# Burrow

Burrow exposes a local HTTP server to the internet through a public subdomain. A
server on a public host hands out names such as `myapp.yourdomain.com`; a client
next to the local service keeps a WebSocket open to it. A visitor's request
travels to the client as a binary frame, and the response travels back.

The library under `src/` holds what both ends compute and decide, with contracts
that Verus proves. The program under `app/` adds sockets, timers and JSON.

| Module | What it holds |
|---|---|
| `wire`, `format`, `format_laws` | the frame format as mathematics, and its laws |
| `frame`, `stream_id`, `buffer` | encoding and decoding of frames |
| `protocol` | the control messages |
| `subdomain` | hosts, reserved names and generated names |
| `tunnel`, `registry`, `session` | the server's state and its clients |
| `config`, `server`, `reply`, `http` | the server's settings and its visitors |
| `client` | the client's handshake, main loop and reconnection |
| `tunnel_laws` | what holds of server and client as wholes |
| `text` | strings |

## Wire format

```text
[16-byte UUID stream id][1-byte frame type][payload]
```

Frame types: `0x01` request, `0x02` response, `0x03` error. A string, a header
value and a body are a length of four bytes and the bytes; headers are a count of
four bytes and the entries.

## Running

```sh
burrow server --domain yourdomain.com --listen 0.0.0.0:8080
burrow client --port 3000 --server ws://yourdomain.com:8080 --subdomain myapp
```

With `--auth-tokens "secret1,secret2"` the server admits only clients with
`--token secret1` or `--token secret2`. Without tokens on the list it admits
everybody.

## Limits

- Requests and responses are buffered whole.
- Request bodies are limited to 10 MB.
- A visitor whose request is not answered within 30 seconds gets a 504.
- A client that loses its first connection tries again after 1 second, then after
  twice the delay each time, up to 60 seconds. When it loses a connection that it
  had regained, the first delay is 2 seconds.

## What is trusted

The contracts of calls into other crates and into the parts of `std` that vstd
does not specify are believed, not proved. They stand beside the wrappers that
make the calls: `buffer` (`bytes`), `stream_id` (`uuid`), `subdomain` (`rand`),
`http` (`hyper`, `http-body-util`), `server` (`hyper`, `tungstenite`), `text` and
`registry` (`std`).
