# netstack

A small network toolkit written in Verus.

The library (`src/`) holds the logic, each function with a contract that
Verus proves:

- `subnet`, `ipv4`, `text`: CIDR notation and dotted-decimal parsing,
  netmask, network and broadcast addresses, usable host range, and the laws
  that tie them together (an address lies in its block; every address of a
  block shares its network address; texts parse back to what printed them).
- `dns`: the wire form of a DNS query for an `A` record (header, name,
  question), with the laws that its name is two bytes longer than the host
  name and reads back as the host name's labels.
- `udp_client`, `tcp_client`, `echo_udp_server`, `echo_server`, `net`: the
  decisions of the clients and servers. Each is a state machine whose `step`
  takes what the caller found (a socket opened, a line was read, bytes
  arrived) and says what to do next; the socket and terminal work is done by
  the caller.

`app/main.rs` is the command-line program: it parses the arguments, does the
socket, terminal and console work with `socket2` and std, and follows the
library's state machines.
