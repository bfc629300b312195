# rengo_server

The rules of a Go game server, verified with Verus.

The library in `src/` decides; the application in `app/` performs. A room takes a message
and returns the actions that follow from it; a connection takes an event and returns what is
to be done next. Sockets, channels, timers and threads stay in the application, and so does
the game itself: the board and its rules come from `rengo_common`, which the application
calls when a room asks for it.

- `messages`: what clients, rooms and connections say to each other.
- `model`: the mathematical model of a room.
- `room`: a room, and whose turn it is.
- `laws`: what holds of a room over any course of events.
- `history`: what its course of events says of a room's players.
- `login`: a connection that has not entered a room yet.
- `relay`: a connection whose player has entered one.
- `house`: the rooms that are open.
- `process`: threads, address and console.
