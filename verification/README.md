# walkie

A push-to-talk voice and chat client for the terminal: dial a peer by its public key, hold the
space bar to talk, or type messages.

`src/` holds the logic, verified with Verus:

- `args`, `identity`: the command line and the identity key
- `key`, `connect`, `chat`, `ptt`, `session`: what each key does on the two screens
- `text`, `styled`, `layout`, `connect_view`, `main_view`: what the screens show, and where
- `audio`, `device`, `transport`, `history`, `clock`: frames, devices, the packet stream, probes

`app/` is the program around it: the terminal, the audio streams, the network connection and the
files. `tests/` runs the library.
