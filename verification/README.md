# propolis_server

The verified core of a VM server: live migration between two instances, a
VNC console, a serial console over WebSocket, and the rules its HTTP
endpoints follow.

`src/` is checked by Verus:

- `codec`, `buf`: the live-migration wire format over a `bytes::BytesMut`,
  with the proof that decoding an encoded frame gives the message back.
- `memx`, `dirty`: page bitmaps, the pages they mark, the destination's
  record of dirty pages and the fetch requests it sends.
- `migrate`: migration errors and the decisions each end takes on each
  protocol message.
- `rfb`, `vnc`, `splash`: RFB messages, the VNC handshake as a state
  machine, the framebuffer updates, and the standalone splash-screen server.
- `serial`: the serial-console session as a state machine.
- `server`, `headers`: instance states, PCI slots, memory layout, and the
  checks on upgrade requests.
- `config`, `initializer`: the configuration as the instance setup reads
  it, and the checks on the boot ROM and disks.

`app/` holds the I/O around it: reading the configuration file, the
migration transport and protocol loops, the VNC and serial-console sockets,
and the HTTP headers.
