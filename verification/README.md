# gung

Gung exposes a service behind a NAT through a server: the client (`gungc`)
connects to the server (`gungs`) over TCP, QUIC, KCP or WebSocket,
authenticates, and asks for a TCP or HTTP proxy; the server listens on a port
for remote peers and forwards each of their requests over the client's
multiplexed connection to the local service.

## Layout

- `src/` is the verified library. It holds the configuration model, the
  length-prefixed framing of control messages, the JSON payloads and the
  authentication handshake (messages, authenticators, the server's and the
  client's decisions), the pool of proxy ports, the table of gateways (an
  HTTP gateway serves one proxy per host), the decisions of running proxies
  and clients with their keepalive, the parsing of certificate and key files,
  and the transports' settings.
  Each public function carries a contract; the laws that relate several
  functions are public proof functions (`lemma_*`).
- `tests/` runs the library on concrete values.
- `app/` is the program around the library: command lines, the TOML run file,
  sockets, TLS, QUIC, KCP, WebSocket, multiplexing, HTTP, the async loops and
  the embedded Python plugins. It hands the library plain values and acts on
  its decisions.
