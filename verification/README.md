# castr

An RTMP live streaming server: encoders publish over RTMP, registered users watch over HTTP-FLV or
WebSocket and chat, and streams can be recorded to FLV files.

`src/` is the library, verified with Verus:

- `types`, `store`, `text`, `flv` hold the data and what the rest is built from: a map with string
  keys, operations on text, FLV tags.
- `state` holds what the server knows: streams with what they keep for those who join, users and
  their tokens. `streams` states what holds of streams over time.
- `auth` answers who registers, logs in or asks who they are. `accounts` states what holds of
  accounts and tokens over time.
- `wire`, `rtmp` and `client` follow one RTMP client from its handshake to the end of its
  connection.
- `viewer` decides what a slow viewer is sent, `chat` follows one visit to a chat, `recording` decides
  what goes into which file and which old files go.
- `api`, `assets`, `pages` and `config` answer requests and read the command line.
- `outside` holds what the library takes from other crates and what it relies on of each; so do
  `wire` for the RTMP protocol and `pages` for the values of templates.

Names that start with `law_` state what holds of several operations together.

`app/` is the program around it: sockets, files, channels between connections, JSON, the parsing of
RTMP messages and the rendering of templates.
`tests/` runs the library.
