# game_relay

A relay server for games. Peers connect over TCP or WebSocket, ask for the rooms of the lobby,
create rooms and join them, and then send each other messages through the relay. A list of the
rooms can be had over HTTP as well, as JSON or in XPrm notation.

The rules of the server are a Verus library under `src/`; the program around it, with its sockets,
queues, tasks and HTTP services, is under `app/`.

- `buffer`, `text`: bytes and texts, and the numbers in them
- `netconnection`: the message and its header, the codec, the state of a connection
- `relay`: the messages between peers and the relay, the relay of a room and the rounds in which it
  polls its peers, the session manager
- `lobby`: rooms, their description, and who may enter them
- `xprm`: values in XPrm notation
- `http`: the WebSocket handshake and its frames, tokens, guards and responses
- `setup`, `utils`: settings, time

Connections are generic in the queue that is written to (`S`) and the stream that is read from
(`R`). Where a rule depends on what only the network or a clock can tell, the library takes that as
a plain value and says what is to be done next; the program does it.
