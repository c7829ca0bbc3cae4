# tucha

A small voice-chat system: a server that keeps rooms and relays audio over
UDP, and a terminal client.

- `src/` is the verified library:
  - `msg` — signaling messages and room/user listings;
  - `codec` — length-prefixed framing of signaling messages;
  - `packet` — the UDP audio packet and its bincode encoding;
  - `rooms` — the server's registry of users and rooms (kept in `DashMap`s)
    with its model `ServerView`, the state transitions, and the laws they keep;
  - `session` — what a client message does to the registry, the reply and the
    broadcast event;
  - `relay` — where a received audio packet is sent;
  - `client` — the client's screen state, how server messages and keys
    change it;
  - `stream` — numbering of outgoing audio packets;
  - `audio` — plain data of the audio engine (device listings, commands).
- `app/` is the program around it: `tucha server` runs the TCP signaling
  server and the UDP relay (tokio), `tucha` runs the terminal client
  (crossterm, ratatui, cpal, Opus).
- `tests/` exercises the library on concrete values.
