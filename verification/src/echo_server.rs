//! A TCP server on every address of the host (IPv6 and IPv4): it takes one
//! connection at a time, reports who connected and prints what that client
//! sends until it closes the connection. The socket work is the caller's:
//! `step` takes what it found and says what to do next.
use vstd::prelude::*;
use crate::echo_udp_server::{any_address, any_address_text};
use crate::ipv4::{dotted, Ipv4Address};
use crate::net::{decode_lossy, joined, utf8_lossy};
use crate::text::{decimal, decimal_text};
use crate::udp_client::REPLY_CAPACITY;

verus! {

/// The address of a peer: IPv4, or IPv6 by its sixteen octets together with
/// its text.
#[derive(Debug)]
pub enum PeerIp {
    V4(Ipv4Address),
    V6 { octets: [u8; 16], text: String },
}

/// The IPv4 address inside an IPv4-mapped IPv6 address (`::ffff:a.b.c.d`,
/// RFC 4291, 2.5.5.2), if the address is one.
pub open spec fn ipv4_mapped(o: [u8; 16]) -> Option<Ipv4Address> {
    if (forall|i: int| 0 <= i < 10 ==> o[i] == 0) && o[10] == 0xff && o[11] == 0xff {
        Some(Ipv4Address { octets: [o[12], o[13], o[14], o[15]] })
    } else {
        None
    }
}

/// The IPv4 address inside an IPv4-mapped IPv6 address
/// (`Ipv6Addr::to_ipv4_mapped`).
pub fn to_ipv4_mapped(o: &[u8; 16]) -> (r: Option<Ipv4Address>)
    ensures
        r == ipv4_mapped(*o),
{
    let mut i: usize = 0;
    while i < 10
        invariant
            i <= 10,
            forall|j: int| 0 <= j < i ==> o[j] == 0,
        decreases 10 - i,
    {
        if o[i] != 0 {
            return None;
        }
        i = i + 1;
    }
    if o[10] == 0xff && o[11] == 0xff {
        Some(Ipv4Address { octets: [o[12], o[13], o[14], o[15]] })
    } else {
        None
    }
}

/// The report of a new connection: the address (`v4: ...` or `v6: ...`,
/// then `v4 mapped: ...` for an IPv4-mapped IPv6 address), then the port.
pub open spec fn device_info(ip: PeerIp, port: u16) -> Seq<Seq<char>> {
    let port_line = decimal(port as nat);
    match ip {
        PeerIp::V4(a) => seq!["v4: "@ + dotted(a), port_line],
        PeerIp::V6 { octets, text } => match ipv4_mapped(octets) {
            Some(a) => seq!["v6: "@ + text@, "v4 mapped: "@ + dotted(a), port_line],
            None => seq!["v6: "@ + text@, port_line],
        },
    }
}

/// The contents of each text.
pub open spec fn texts(v: Seq<String>) -> Seq<Seq<char>> {
    v.map_values(|s: String| s@)
}

/// The lines that report a new connection.
pub fn print_incoming_device_info(ip: &PeerIp, port: u16) -> (r: Vec<String>)
    ensures
        texts(r@) == device_info(*ip, port),
{
    let mut lines: Vec<String> = Vec::new();
    match ip {
        PeerIp::V4(a) => {
            lines.push(joined("v4: ", a.to_text().as_str()));
        },
        PeerIp::V6 { octets, text } => {
            lines.push(joined("v6: ", text.as_str()));
            if let Some(a) = to_ipv4_mapped(octets) {
                lines.push(joined("v4 mapped: ", a.to_text().as_str()));
            }
        },
    }
    lines.push(decimal_text(port as u32));
    assert(texts(lines@) =~= device_info(*ip, port));
    lines
}

/// How many connections may wait to be taken.
pub const BACKLOG: i32 = 128;

/// Where the server stands.
#[derive(Clone, Copy, Debug, PartialEq, Eq, Structural)]
pub enum TcpServerStage {
    Opening,
    Configuring,
    Binding,
    Listening,
    Accepting,
    Reading,
    Finished,
}

/// What the caller found when it did the last action. Errors carry the text
/// of the error that the socket reported.
#[derive(Debug)]
pub enum TcpServerEvent {
    /// The socket was opened, or not.
    Opened(Result<(), String>),
    /// The socket was set to take IPv4 traffic too, or not.
    Configured(Result<(), String>),
    /// The socket was bound to the address, or not.
    Bound(Result<(), String>),
    /// The socket listens, or not.
    Listened(Result<(), String>),
    /// A connection came, with the address and port of its peer (or the
    /// error of asking for them), or taking it failed.
    Accepted(Result<Result<(PeerIp, u16), String>, String>),
    /// Bytes arrived on the connection (none when the peer closed it), or
    /// reading failed.
    Read(Result<Vec<u8>, String>),
}

/// What the caller is to do next.
#[derive(Debug)]
pub enum TcpServerAction {
    /// Open an IPv6 stream socket.
    OpenSocket,
    /// Let the socket take IPv4 traffic too.
    AcceptIpv4,
    /// Bind the socket to this address.
    Bind(String),
    /// Listen with this many pending connections at most.
    Listen(i32),
    /// Print these lines, then take the next connection.
    Accept(Vec<String>),
    /// Print these lines, then read from the connection into a buffer of
    /// this many bytes.
    Read(Vec<String>, usize),
    /// The server is done, with the report of its failure.
    Finish(Result<(), String>),
    /// Stop the program with this report.
    Abort(String),
}

/// The server and where it stands.
#[derive(Debug)]
pub struct EchoServer {
    pub port: u16,
    pub stage: TcpServerStage,
}

/// The event that the caller hands back in each stage.
pub open spec fn tcp_server_expects(stage: TcpServerStage, event: TcpServerEvent) -> bool {
    match stage {
        TcpServerStage::Opening => event is Opened,
        TcpServerStage::Configuring => event is Configured,
        TcpServerStage::Binding => event is Bound,
        TcpServerStage::Listening => event is Listened,
        TcpServerStage::Accepting => event is Accepted,
        TcpServerStage::Reading => event is Read,
        TcpServerStage::Finished => false,
    }
}

/// `a` prints the one line `text`, then takes the next connection.
pub open spec fn accepts_after(a: TcpServerAction, text: Seq<char>) -> bool {
    a matches TcpServerAction::Accept(lines) && lines@.len() == 1 && lines@[0]@ == text
}

/// The server on `port`, and its first action.
pub fn echo_server(port: u16) -> (r: (EchoServer, TcpServerAction))
    ensures
        r.0.port == port,
        r.0.stage == TcpServerStage::Opening,
        r.1 is OpenSocket,
{
    (EchoServer { port, stage: TcpServerStage::Opening }, TcpServerAction::OpenSocket)
}

impl EchoServer {
    /// What follows `event`: the socket is opened, set to take IPv4 traffic,
    /// bound to every interface at the port and set to listen; then each
    /// connection is reported and read until its peer closes it (reported
    /// by a separator line) or reading fails (reported too), and the next
    /// connection is taken. A setup failure or a failure to take a
    /// connection ends the server with its report; a failure to learn the
    /// peer's address stops the program.
    pub fn step(&mut self, event: TcpServerEvent) -> (r: TcpServerAction)
        requires
            tcp_server_expects(old(self).stage, event),
        ensures
            final(self).port == old(self).port,
            match event {
                TcpServerEvent::Opened(Ok(())) => final(self).stage == TcpServerStage::Configuring
                    && r is AcceptIpv4,
                TcpServerEvent::Configured(Ok(())) => final(self).stage == TcpServerStage::Binding
                    && (r matches TcpServerAction::Bind(t) && t@ == any_address(old(self).port)),
                TcpServerEvent::Bound(Ok(())) => final(self).stage == TcpServerStage::Listening
                    && r == TcpServerAction::Listen(BACKLOG),
                TcpServerEvent::Listened(Ok(())) => final(self).stage == TcpServerStage::Accepting
                    && accepts_after(
                    r,
                    "Server listening on port "@ + decimal(old(self).port as nat),
                ),
                TcpServerEvent::Opened(Err(e)) | TcpServerEvent::Configured(Err(e))
                | TcpServerEvent::Bound(Err(e)) | TcpServerEvent::Listened(Err(e))
                | TcpServerEvent::Accepted(Err(e)) => final(self).stage == TcpServerStage::Finished
                    && (r matches TcpServerAction::Finish(Err(t)) && t@ == e@),
                TcpServerEvent::Accepted(Ok(Err(e))) => final(self).stage
                    == TcpServerStage::Finished && (r matches TcpServerAction::Abort(t) && t@
                    == e@),
                TcpServerEvent::Accepted(Ok(Ok((ip, port)))) => final(self).stage
                    == TcpServerStage::Reading && (r matches TcpServerAction::Read(lines, n)
                    && texts(lines@) == device_info(ip, port) && n == REPLY_CAPACITY),
                TcpServerEvent::Read(Ok(bytes)) => if bytes@.len() == 0 {
                    final(self).stage == TcpServerStage::Accepting && accepts_after(
                        r,
                        "\n---\n"@,
                    )
                } else {
                    final(self).stage == TcpServerStage::Reading && (r matches TcpServerAction::Read(
                        lines,
                        n,
                    ) && lines@.len() == 1 && lines@[0]@ == utf8_lossy(bytes@) && n
                        == REPLY_CAPACITY)
                },
                TcpServerEvent::Read(Err(e)) => final(self).stage == TcpServerStage::Accepting
                    && accepts_after(r, "Failed to read from stream: "@ + e@),
            },
    {
        match event {
            TcpServerEvent::Opened(Ok(())) => {
                self.stage = TcpServerStage::Configuring;
                TcpServerAction::AcceptIpv4
            },
            TcpServerEvent::Configured(Ok(())) => {
                self.stage = TcpServerStage::Binding;
                TcpServerAction::Bind(any_address_text(self.port))
            },
            TcpServerEvent::Bound(Ok(())) => {
                self.stage = TcpServerStage::Listening;
                TcpServerAction::Listen(BACKLOG)
            },
            TcpServerEvent::Listened(Ok(())) => {
                self.stage = TcpServerStage::Accepting;
                let mut lines: Vec<String> = Vec::new();
                lines.push(
                    joined("Server listening on port ", decimal_text(self.port as u32).as_str()),
                );
                TcpServerAction::Accept(lines)
            },
            TcpServerEvent::Opened(Err(e)) | TcpServerEvent::Configured(Err(e))
            | TcpServerEvent::Bound(Err(e)) | TcpServerEvent::Listened(Err(e))
            | TcpServerEvent::Accepted(Err(e)) => {
                self.stage = TcpServerStage::Finished;
                TcpServerAction::Finish(Err(e))
            },
            TcpServerEvent::Accepted(Ok(Err(e))) => {
                self.stage = TcpServerStage::Finished;
                TcpServerAction::Abort(e)
            },
            TcpServerEvent::Accepted(Ok(Ok((ip, port)))) => {
                self.stage = TcpServerStage::Reading;
                TcpServerAction::Read(print_incoming_device_info(&ip, port), REPLY_CAPACITY)
            },
            TcpServerEvent::Read(Ok(bytes)) => {
                let mut lines: Vec<String> = Vec::new();
                if bytes.len() == 0 {
                    self.stage = TcpServerStage::Accepting;
                    lines.push(String::from_str("\n---\n"));
                    TcpServerAction::Accept(lines)
                } else {
                    self.stage = TcpServerStage::Reading;
                    lines.push(decode_lossy(bytes.as_slice()));
                    TcpServerAction::Read(lines, REPLY_CAPACITY)
                }
            },
            TcpServerEvent::Read(Err(e)) => {
                self.stage = TcpServerStage::Accepting;
                let mut lines: Vec<String> = Vec::new();
                lines.push(joined("Failed to read from stream: ", e.as_str()));
                TcpServerAction::Accept(lines)
            },
        }
    }
}

} // verus!
