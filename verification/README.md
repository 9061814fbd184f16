# rttmeter

A round-trip-time meter for the path to a host. It sends ICMP Echo Requests with
rising times to live, matches the responses, and shows loss and round-trip times
of each hop, once or continuously.

- `src/` is the library, verified with Verus: the packet codec and the Internet
  checksum (`icmp`, `checksum`, `wire`), addresses and text (`address`, `text`),
  the command line (`command`), the probing state machines (`probe`, `sweep`,
  `reply`, `hop`, `stats`), and what is made of the measurements (`status`, `render`,
  `monitor`, `notes`). Public proof functions named `law_*` state what holds of
  several functions together.
- `tests/` runs the library on concrete values.
- `app/` is the program: arguments, name resolution, the raw socket, clocks, the
  terminal, and the floating-point statistics.

The program needs the privilege to open raw sockets:

```bash
sudo rttmeter 8.8.8.8 --trace
```
