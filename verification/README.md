# netbeam

Discovery of file-transfer peers on a local network over UDP broadcast.

- `src/` is the verified library: the packet codec (`packet`), the decisions of the
  discovery handshake (`protocol`), the application state and the events it takes in
  (`app`, `event`, `registry`), plain network addresses (`address`), and the shutdown flag
  (`thread`).
- `app/` is the program around it: command line, sockets, threads, network interfaces and
  the terminal.
- `tests/` runs the library on concrete values.
