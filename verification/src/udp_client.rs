//! A UDP request and its reply: open a socket, resolve `host:port` to its
//! first address, connect, send the message, and receive one datagram of at
//! most 512 bytes. The socket work is the caller's: `step` takes what it
//! found and says what to do next.
use vstd::prelude::*;
use crate::net::{
    decode_lossy, host_port, host_port_text, joined, no_address_message, no_address_text,
    unresolvable_message, unresolvable_text, utf8_lossy,
};

verus! {

/// The largest reply that is received.
pub const REPLY_CAPACITY: usize = 512;

/// Where an exchange stands.
#[derive(Clone, Copy, Debug, PartialEq, Eq, Structural)]
pub enum UdpStage {
    Opening,
    Resolving,
    Connecting,
    Sending,
    Receiving,
    Finished,
}

/// What the caller found when it did the last action. Errors carry the text
/// of the error that the socket or the resolver reported.
#[derive(Debug)]
pub enum UdpEvent {
    /// The socket was opened, or not.
    Opened(Result<(), String>),
    /// The name resolved: to the text of its first address, to no address, or
    /// not at all.
    Resolved(Result<Option<String>, String>),
    /// The socket was connected to the address, or not.
    Connected(Result<(), String>),
    /// The message was sent, or not.
    Sent(Result<(), String>),
    /// A datagram arrived (its bytes), or receiving failed.
    Received(Result<Vec<u8>, String>),
}

/// What the caller is to do next.
#[derive(Debug)]
pub enum UdpAction {
    /// Open an IPv4 datagram socket.
    OpenSocket,
    /// Resolve this `host:port` text.
    Resolve(String),
    /// Connect the socket to the first resolved address.
    Connect,
    /// Send these bytes.
    Send(Vec<u8>),
    /// Receive one datagram into a buffer of this many bytes.
    Receive(usize),
    /// The exchange is over: the reply decoded as text, or the report of the
    /// failure.
    Finish(Result<String, String>),
    /// Stop the program with this report.
    Abort(String),
}

/// One request and its reply.
#[derive(Debug)]
pub struct UdpExchange {
    pub host: String,
    pub port: u16,
    pub message: Vec<u8>,
    /// Whether a failure to open the socket or to find the address stops the
    /// program rather than ending the exchange with an error.
    pub setup_failure_is_fatal: bool,
    /// The text of the address that was connected to.
    pub peer: String,
    pub stage: UdpStage,
}

/// The event that the caller hands back in each stage.
pub open spec fn udp_expects(stage: UdpStage, event: UdpEvent) -> bool {
    match stage {
        UdpStage::Opening => event is Opened,
        UdpStage::Resolving => event is Resolved,
        UdpStage::Connecting => event is Connected,
        UdpStage::Sending => event is Sent,
        UdpStage::Receiving => event is Received,
        UdpStage::Finished => false,
    }
}

/// `a` ends the exchange with the failure reported by `text` (or stops the
/// program with it when `fatal`).
pub open spec fn udp_fails_with(a: UdpAction, fatal: bool, text: Seq<char>) -> bool {
    if fatal {
        a matches UdpAction::Abort(t) && t@ == text
    } else {
        a matches UdpAction::Finish(Err(t)) && t@ == text
    }
}

/// `a` ends the exchange with the failure reported by `text`.
pub open spec fn udp_ends_with_error(a: UdpAction, text: Seq<char>) -> bool {
    a matches UdpAction::Finish(Err(t)) && t@ == text
}

impl UdpExchange {
    /// An exchange of `message` with `host:port`, and its first action.
    pub fn new(host: String, port: u16, message: Vec<u8>, setup_failure_is_fatal: bool) -> (r: (
        UdpExchange,
        UdpAction,
    ))
        ensures
            r.0.host@ == host@,
            r.0.port == port,
            r.0.message@ == message@,
            r.0.setup_failure_is_fatal == setup_failure_is_fatal,
            r.0.stage == UdpStage::Opening,
            r.1 is OpenSocket,
    {
        (
            UdpExchange {
                host,
                port,
                message,
                setup_failure_is_fatal,
                peer: String::new(),
                stage: UdpStage::Opening,
            },
            UdpAction::OpenSocket,
        )
    }

    /// What follows `event`: a socket that opened is followed by resolving
    /// `host:port`, the first address by connecting, a connection by sending
    /// the message, a sent message by receiving one datagram, and a datagram
    /// by the end of the exchange with its bytes decoded. A failure ends the
    /// exchange with its report.
    pub fn step(&mut self, event: UdpEvent) -> (r: UdpAction)
        requires
            udp_expects(old(self).stage, event),
        ensures
            final(self).host == old(self).host,
            final(self).port == old(self).port,
            final(self).message == old(self).message,
            final(self).setup_failure_is_fatal == old(self).setup_failure_is_fatal,
            match event {
                UdpEvent::Opened(Ok(())) => final(self).stage == UdpStage::Resolving
                    && final(self).peer == old(self).peer
                    && (r matches UdpAction::Resolve(t) && t@ == host_port(old(self).host@, old(self).port)),
                UdpEvent::Opened(Err(e)) => final(self).stage == UdpStage::Finished
                    && udp_fails_with(r, old(self).setup_failure_is_fatal, e@),
                UdpEvent::Resolved(Ok(Some(addr))) => final(self).stage == UdpStage::Connecting
                    && final(self).peer@ == addr@ && r is Connect,
                UdpEvent::Resolved(Ok(None)) => final(self).stage == UdpStage::Finished
                    && udp_fails_with(
                    r,
                    old(self).setup_failure_is_fatal,
                    no_address_message(old(self).host@, old(self).port),
                ),
                UdpEvent::Resolved(Err(e)) => final(self).stage == UdpStage::Finished
                    && udp_fails_with(
                    r,
                    old(self).setup_failure_is_fatal,
                    unresolvable_message(old(self).host@, old(self).port, e@),
                ),
                UdpEvent::Connected(Ok(())) => final(self).stage == UdpStage::Sending
                    && final(self).peer == old(self).peer
                    && (r matches UdpAction::Send(m) && m@ == old(self).message@),
                UdpEvent::Connected(Err(e)) => final(self).stage == UdpStage::Finished
                    && udp_ends_with_error(
                    r,
                    "Failed to connect to "@ + old(self).peer@ + ": "@ + e@,
                ),
                UdpEvent::Sent(Ok(())) => final(self).stage == UdpStage::Receiving
                    && final(self).peer == old(self).peer
                    && r == UdpAction::Receive(REPLY_CAPACITY),
                UdpEvent::Sent(Err(e)) => final(self).stage == UdpStage::Finished
                    && udp_ends_with_error(r, "Failed to send message: "@ + e@),
                UdpEvent::Received(Ok(bytes)) => final(self).stage == UdpStage::Finished
                    && (r matches UdpAction::Finish(Ok(t)) && t@ == utf8_lossy(bytes@)),
                UdpEvent::Received(Err(e)) => final(self).stage == UdpStage::Finished
                    && udp_ends_with_error(r, "Failed to receive response: "@ + e@),
            },
    {
        match event {
            UdpEvent::Opened(Ok(())) => {
                self.stage = UdpStage::Resolving;
                UdpAction::Resolve(host_port_text(self.host.as_str(), self.port))
            },
            UdpEvent::Opened(Err(e)) => {
                self.stage = UdpStage::Finished;
                self.fail(e)
            },
            UdpEvent::Resolved(Ok(Some(addr))) => {
                self.stage = UdpStage::Connecting;
                self.peer = addr;
                UdpAction::Connect
            },
            UdpEvent::Resolved(Ok(None)) => {
                self.stage = UdpStage::Finished;
                let text = no_address_text(self.host.as_str(), self.port);
                self.fail(text)
            },
            UdpEvent::Resolved(Err(e)) => {
                self.stage = UdpStage::Finished;
                let text = unresolvable_text(self.host.as_str(), self.port, e.as_str());
                self.fail(text)
            },
            UdpEvent::Connected(Ok(())) => {
                self.stage = UdpStage::Sending;
                UdpAction::Send(self.message.clone())
            },
            UdpEvent::Connected(Err(e)) => {
                self.stage = UdpStage::Finished;
                let text = joined("Failed to connect to ", self.peer.as_str()).concat(
                    ": ",
                ).concat(e.as_str());
                UdpAction::Finish(Err(text))
            },
            UdpEvent::Sent(Ok(())) => {
                self.stage = UdpStage::Receiving;
                UdpAction::Receive(REPLY_CAPACITY)
            },
            UdpEvent::Sent(Err(e)) => {
                self.stage = UdpStage::Finished;
                UdpAction::Finish(Err(joined("Failed to send message: ", e.as_str())))
            },
            UdpEvent::Received(Ok(bytes)) => {
                self.stage = UdpStage::Finished;
                UdpAction::Finish(Ok(decode_lossy(bytes.as_slice())))
            },
            UdpEvent::Received(Err(e)) => {
                self.stage = UdpStage::Finished;
                UdpAction::Finish(Err(joined("Failed to receive response: ", e.as_str())))
            },
        }
    }

    /// Ends the exchange with a failure, or stops the program when a setup
    /// failure is fatal.
    fn fail(&self, text: String) -> (r: UdpAction)
        ensures
            udp_fails_with(r, self.setup_failure_is_fatal, text@),
    {
        if self.setup_failure_is_fatal {
            UdpAction::Abort(text)
        } else {
            UdpAction::Finish(Err(text))
        }
    }
}

/// The text that the client sends.
pub open spec fn greeting() -> Seq<char> {
    "hello server"@
}

/// The exchange of the UDP client: it sends `hello server` to `host:port`
/// and receives one reply; a failure at any step ends it with an error.
pub fn create_udp_client(host: String, port: u16) -> (r: (UdpExchange, UdpAction))
    ensures
        r.0.host@ == host@,
        r.0.port == port,
        r.0.message@ == vstd::utf8::encode_utf8(greeting()),
        !r.0.setup_failure_is_fatal,
        r.0.stage == UdpStage::Opening,
        r.1 is OpenSocket,
{
    let message = "hello server";
    UdpExchange::new(host, port, message.as_bytes_vec(), false)
}

} // verus!
