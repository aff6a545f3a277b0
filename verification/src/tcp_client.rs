//! An interactive TCP client: open a socket, resolve `host:port` to its
//! first address, connect, then send each line typed by the user (without
//! leading and trailing white space) until the user types `close`. The
//! socket and terminal work is the caller's: `step` takes what it found and
//! says what to do next.
use vstd::prelude::*;
use vstd::string::StrSliceExecFns;
use vstd::utf8::encode_utf8;
use crate::net::{
    host_port, host_port_text, is_close_command, joined, no_address_message, no_address_text,
    trim, trimmed, unresolvable_message, unresolvable_text,
};

verus! {

/// Where the client stands.
#[derive(Clone, Copy, Debug, PartialEq, Eq, Structural)]
pub enum TcpStage {
    Opening,
    Resolving,
    Connecting,
    Reading,
    Sending,
    Finished,
}

/// The kinds of a failed connection that the client tells apart.
#[derive(Clone, Copy, Debug, PartialEq, Eq, Structural)]
pub enum ConnectFailure {
    /// Nothing listens on the port.
    Refused,
    /// The server did not answer in time.
    TimedOut,
    /// Any other failure.
    Other,
}

/// What the caller found when it did the last action. Errors carry the text
/// of the error that the socket, the resolver or the terminal reported.
#[derive(Debug)]
pub enum TcpEvent {
    /// The socket was opened, or not.
    Opened(Result<(), String>),
    /// The name resolved: to the text of its first address, to no address, or
    /// not at all.
    Resolved(Result<Option<String>, String>),
    /// The connection was made, or failed in the given way.
    Connected(Result<(), (ConnectFailure, String)>),
    /// A line was read from the terminal (with its line ending; empty at the
    /// end of the input), or reading failed.
    LineRead(Result<String, String>),
    /// The bytes were sent, or not.
    Sent(Result<(), String>),
}

/// What the caller is to do next.
#[derive(Debug)]
pub enum TcpAction {
    /// Open an IPv4 stream socket.
    OpenSocket,
    /// Resolve this `host:port` text.
    Resolve(String),
    /// Connect the socket to the first resolved address.
    Connect,
    /// Print these lines, then read a line from the terminal.
    ReadLine(Vec<String>),
    /// Send these bytes on the connection.
    Send(Vec<u8>),
    /// Print these lines; the client is done, successfully or with the
    /// report of its failure.
    Finish(Vec<String>, Result<(), String>),
    /// Stop the program with this report.
    Abort(String),
}

/// The client and where it stands.
#[derive(Debug)]
pub struct TcpClient {
    pub host: String,
    pub port: u16,
    pub stage: TcpStage,
}

/// The event that the caller hands back in each stage.
pub open spec fn tcp_expects(stage: TcpStage, event: TcpEvent) -> bool {
    match stage {
        TcpStage::Opening => event is Opened,
        TcpStage::Resolving => event is Resolved,
        TcpStage::Connecting => event is Connected,
        TcpStage::Reading => event is LineRead,
        TcpStage::Sending => event is Sent,
        TcpStage::Finished => false,
    }
}

/// `a` ends the client, printing nothing, with the failure reported by `text`.
pub open spec fn tcp_fails_with(a: TcpAction, text: Seq<char>) -> bool {
    a matches TcpAction::Finish(lines, Err(t)) && lines@.len() == 0 && t@ == text
}

/// The report of a failed connection.
pub open spec fn connect_failure_message(
    host: Seq<char>,
    port: u16,
    kind: ConnectFailure,
    error: Seq<char>,
) -> Seq<char> {
    match kind {
        ConnectFailure::Refused => "Connection refused: Is the server running on "@ + host_port(
            host,
            port,
        ) + "?"@,
        ConnectFailure::TimedOut => "Connection timed out: Could not connect to "@ + host_port(
            host,
            port,
        ),
        ConnectFailure::Other => "Failed to connect to "@ + host_port(host, port) + ": "@ + error,
    }
}

/// The client of `host:port`, and its first action.
pub fn create_tcp_client(host: String, port: u16) -> (r: (TcpClient, TcpAction))
    ensures
        r.0.host@ == host@,
        r.0.port == port,
        r.0.stage == TcpStage::Opening,
        r.1 is OpenSocket,
{
    (TcpClient { host, port, stage: TcpStage::Opening }, TcpAction::OpenSocket)
}

impl TcpClient {
    /// What follows `event`: a socket that opened is followed by resolving
    /// `host:port`, the first address by connecting, a connection by a
    /// greeting and the first line. A typed line that is `close` once trimmed
    /// ends the client; any other is sent trimmed, and then the next line is
    /// read. A failure ends the client with its report; a failure to read
    /// the terminal stops the program.
    pub fn step(&mut self, event: TcpEvent) -> (r: TcpAction)
        requires
            tcp_expects(old(self).stage, event),
        ensures
            final(self).host == old(self).host,
            final(self).port == old(self).port,
            match event {
                TcpEvent::Opened(Ok(())) => final(self).stage == TcpStage::Resolving
                    && (r matches TcpAction::Resolve(t) && t@ == host_port(
                    old(self).host@,
                    old(self).port,
                )),
                TcpEvent::Opened(Err(e)) => final(self).stage == TcpStage::Finished
                    && tcp_fails_with(r, e@),
                TcpEvent::Resolved(Ok(Some(_))) => final(self).stage == TcpStage::Connecting
                    && r is Connect,
                TcpEvent::Resolved(Ok(None)) => final(self).stage == TcpStage::Finished
                    && tcp_fails_with(r, no_address_message(old(self).host@, old(self).port)),
                TcpEvent::Resolved(Err(e)) => final(self).stage == TcpStage::Finished
                    && tcp_fails_with(
                    r,
                    unresolvable_message(old(self).host@, old(self).port, e@),
                ),
                TcpEvent::Connected(Ok(())) => final(self).stage == TcpStage::Reading
                    && (r matches TcpAction::ReadLine(lines) && lines@.len() == 2
                    && lines@[0]@ == "Successfully connected to "@ + host_port(
                    old(self).host@,
                    old(self).port,
                ) && lines@[1]@ == "Type 'close' to terminate the connection."@),
                TcpEvent::Connected(Err((kind, e))) => final(self).stage == TcpStage::Finished
                    && tcp_fails_with(
                    r,
                    connect_failure_message(old(self).host@, old(self).port, kind, e@),
                ),
                TcpEvent::LineRead(Ok(line)) => if trimmed(line@) == "close"@ {
                    final(self).stage == TcpStage::Finished && (r matches TcpAction::Finish(
                        lines,
                        Ok(()),
                    ) && lines@.len() == 1 && lines@[0]@ == "Closing connection to "@ + host_port(
                        old(self).host@,
                        old(self).port,
                    ))
                } else {
                    final(self).stage == TcpStage::Sending && (r matches TcpAction::Send(bytes)
                        && bytes@ == encode_utf8(trimmed(line@)))
                },
                TcpEvent::LineRead(Err(e)) => final(self).stage == TcpStage::Finished
                    && (r matches TcpAction::Abort(t) && t@ == "Failed to read line from stdin: "@
                    + e@),
                TcpEvent::Sent(Ok(())) => final(self).stage == TcpStage::Reading
                    && (r matches TcpAction::ReadLine(lines) && lines@.len() == 0),
                TcpEvent::Sent(Err(e)) => final(self).stage == TcpStage::Finished
                    && tcp_fails_with(r, e@),
            },
    {
        match event {
            TcpEvent::Opened(Ok(())) => {
                self.stage = TcpStage::Resolving;
                TcpAction::Resolve(host_port_text(self.host.as_str(), self.port))
            },
            TcpEvent::Opened(Err(e)) => {
                self.stage = TcpStage::Finished;
                TcpAction::Finish(Vec::new(), Err(e))
            },
            TcpEvent::Resolved(Ok(Some(_))) => {
                self.stage = TcpStage::Connecting;
                TcpAction::Connect
            },
            TcpEvent::Resolved(Ok(None)) => {
                self.stage = TcpStage::Finished;
                TcpAction::Finish(Vec::new(), Err(no_address_text(self.host.as_str(), self.port)))
            },
            TcpEvent::Resolved(Err(e)) => {
                self.stage = TcpStage::Finished;
                TcpAction::Finish(
                    Vec::new(),
                    Err(unresolvable_text(self.host.as_str(), self.port, e.as_str())),
                )
            },
            TcpEvent::Connected(Ok(())) => {
                self.stage = TcpStage::Reading;
                let target = host_port_text(self.host.as_str(), self.port);
                let mut lines: Vec<String> = Vec::new();
                lines.push(joined("Successfully connected to ", target.as_str()));
                lines.push(String::from_str("Type 'close' to terminate the connection."));
                TcpAction::ReadLine(lines)
            },
            TcpEvent::Connected(Err((kind, e))) => {
                self.stage = TcpStage::Finished;
                let target = host_port_text(self.host.as_str(), self.port);
                let text = match kind {
                    ConnectFailure::Refused => joined(
                        "Connection refused: Is the server running on ",
                        target.as_str(),
                    ).concat("?"),
                    ConnectFailure::TimedOut => joined(
                        "Connection timed out: Could not connect to ",
                        target.as_str(),
                    ),
                    ConnectFailure::Other => joined("Failed to connect to ", target.as_str()).concat(
                        ": ",
                    ).concat(e.as_str()),
                };
                TcpAction::Finish(Vec::new(), Err(text))
            },
            TcpEvent::LineRead(Ok(line)) => {
                let t = trim(line.as_str());
                if is_close_command(t) {
                    self.stage = TcpStage::Finished;
                    let target = host_port_text(self.host.as_str(), self.port);
                    let mut lines: Vec<String> = Vec::new();
                    lines.push(joined("Closing connection to ", target.as_str()));
                    TcpAction::Finish(lines, Ok(()))
                } else {
                    self.stage = TcpStage::Sending;
                    TcpAction::Send(t.as_bytes_vec())
                }
            },
            TcpEvent::LineRead(Err(e)) => {
                self.stage = TcpStage::Finished;
                TcpAction::Abort(joined("Failed to read line from stdin: ", e.as_str()))
            },
            TcpEvent::Sent(Ok(())) => {
                self.stage = TcpStage::Reading;
                TcpAction::ReadLine(Vec::new())
            },
            TcpEvent::Sent(Err(e)) => {
                self.stage = TcpStage::Finished;
                TcpAction::Finish(Vec::new(), Err(e))
            },
        }
    }
}

} // verus!
