# ullfs

Low-latency file synchronisation: kernel probes report file-system changes
in a watched directory, the client sends each change to its servers (whole
files the first time, deltas afterwards), and the server applies them to its
copies.

Layout:

- `src/` is the verified library. It holds the delta computation and its
  application, the byte framing between client and server and its decoding,
  the client's store of sent files, the decoding of probe events and the
  decisions taken on them, the path slots the probes write, the datagram
  receiver's state machine, the connection planning and the settings. Each
  public function states its result in its contract, and the laws that span
  functions are public proof functions (`law_*`, `lemma_*`).
- `app/` is the program around it: configuration files, sockets, the probe
  loader and the tasks that tie the pieces together.
- `tests/` runs the library on concrete values.
