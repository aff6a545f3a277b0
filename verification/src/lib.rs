//! Small network toolkit: IPv4 subnet arithmetic, CIDR and dotted-quad
//! parsing, DNS query encoding, and the decision logic of a handful of
//! TCP/UDP clients and echo servers whose socket work is done by the caller.
pub mod dns;
pub mod echo_server;
pub mod echo_udp_server;
pub mod ipv4;
pub mod net;
pub mod subnet;
pub mod tcp_client;
pub mod text;
pub mod udp_client;
