//! A UDP server on every address of the host (IPv6 and IPv4): it reports
//! each datagram it receives and answers its sender with a fixed greeting,
//! until receiving fails. The socket work is the caller's: `step` takes what
//! it found and says what to do next.
use vstd::prelude::*;
use vstd::string::StrSliceExecFns;
use vstd::utf8::encode_utf8;
use crate::net::{decode_lossy, joined, utf8_lossy};
use crate::text::{all_digits, decimal, decimal_text, digits_value, law_decimal_reads_back};
use crate::udp_client::REPLY_CAPACITY;

verus! {

/// Where the server stands.
#[derive(Clone, Copy, Debug, PartialEq, Eq, Structural)]
pub enum UdpServerStage {
    Opening,
    Configuring,
    Binding,
    Receiving,
    Replying,
    Finished,
}

/// What the caller found when it did the last action. Errors carry the text
/// of the error that the socket reported.
#[derive(Debug)]
pub enum UdpServerEvent {
    /// The socket was opened, or not.
    Opened(Result<(), String>),
    /// The socket was set to take IPv4 traffic too, or not.
    Configured(Result<(), String>),
    /// The socket was bound to the address, or not.
    Bound(Result<(), String>),
    /// A datagram arrived (its bytes and the text of its sender's address), or
    /// receiving failed.
    Received(Result<(Vec<u8>, String), String>),
    /// The answer was sent, or not.
    Replied(Result<(), String>),
}

/// What the caller is to do next.
#[derive(Debug)]
pub enum UdpServerAction {
    /// Open an IPv6 datagram socket.
    OpenSocket,
    /// Let the socket take IPv4 traffic too.
    AcceptIpv4,
    /// Bind the socket to this address.
    Bind(String),
    /// Print these lines, then receive one datagram into a buffer of this
    /// many bytes.
    Receive(Vec<String>, usize),
    /// Print these lines, then send these bytes to the last sender.
    Reply(Vec<String>, Vec<u8>),
    /// Print these lines; the server is done, successfully or with the
    /// report of its failure.
    Finish(Vec<String>, Result<(), String>),
}

/// The server and where it stands.
#[derive(Debug)]
pub struct EchoUdpServer {
    pub port: u16,
    /// The text of the address of the last sender.
    pub sender: String,
    pub stage: UdpServerStage,
}

/// The event that the caller hands back in each stage.
pub open spec fn udp_server_expects(stage: UdpServerStage, event: UdpServerEvent) -> bool {
    match stage {
        UdpServerStage::Opening => event is Opened,
        UdpServerStage::Configuring => event is Configured,
        UdpServerStage::Binding => event is Bound,
        UdpServerStage::Receiving => event is Received,
        UdpServerStage::Replying => event is Replied,
        UdpServerStage::Finished => false,
    }
}

/// The address on every interface, IPv6 and IPv4, at `port`.
pub open spec fn any_address(port: u16) -> Seq<char> {
    "[::]:"@ + decimal(port as nat)
}

/// Builds the address on every interface at `port`.
pub fn any_address_text(port: u16) -> (r: String)
    ensures
        r@ == any_address(port),
{
    joined("[::]:", decimal_text(port as u32).as_str())
}

/// The answer to every datagram.
pub open spec fn echo_message() -> Seq<char> {
    "Hello, UDP client!"@
}

/// `a` ends the server, printing nothing, with the failure reported by `text`.
pub open spec fn udp_server_fails_with(a: UdpServerAction, text: Seq<char>) -> bool {
    a matches UdpServerAction::Finish(lines, Err(t)) && lines@.len() == 0 && t@ == text
}

/// `a` prints the one line `text`, then receives the next datagram.
pub open spec fn receives_after(a: UdpServerAction, text: Seq<char>) -> bool {
    a matches UdpServerAction::Receive(lines, n) && n == REPLY_CAPACITY && lines@.len() == 1
        && lines@[0]@ == text
}

/// The report of a datagram: its sender and its text.
pub fn received_report(from: &str, text: &str) -> (r: String)
    ensures
        r@ == "Received from "@ + from@ + ": "@ + text@,
{
    joined("Received from ", from).concat(": ").concat(text)
}

/// The server on `port`, and its first action.
pub fn echo_udp_server(port: u16) -> (r: (EchoUdpServer, UdpServerAction))
    ensures
        r.0.port == port,
        r.0.stage == UdpServerStage::Opening,
        r.1 is OpenSocket,
{
    (
        EchoUdpServer { port, sender: String::new(), stage: UdpServerStage::Opening },
        UdpServerAction::OpenSocket,
    )
}

impl EchoUdpServer {
    /// What follows `event`: the socket is opened, set to take IPv4 traffic
    /// and bound to every interface at the port, then datagrams are received
    /// one at a time; each is reported with its sender and answered with the
    /// greeting, and the outcome of the answer is reported. A setup failure
    /// ends the server with its report; a failure to receive ends it
    /// successfully after reporting it.
    pub fn step(&mut self, event: UdpServerEvent) -> (r: UdpServerAction)
        requires
            udp_server_expects(old(self).stage, event),
        ensures
            final(self).port == old(self).port,
            match event {
                UdpServerEvent::Opened(Ok(())) => final(self).stage == UdpServerStage::Configuring
                    && r is AcceptIpv4,
                UdpServerEvent::Configured(Ok(())) => final(self).stage == UdpServerStage::Binding
                    && (r matches UdpServerAction::Bind(t) && t@ == any_address(old(self).port)),
                UdpServerEvent::Bound(Ok(())) => final(self).stage == UdpServerStage::Receiving
                    && (r matches UdpServerAction::Receive(lines, n) && lines@.len() == 0 && n
                    == REPLY_CAPACITY),
                UdpServerEvent::Opened(Err(e)) | UdpServerEvent::Configured(Err(e))
                | UdpServerEvent::Bound(Err(e)) => final(self).stage == UdpServerStage::Finished
                    && udp_server_fails_with(r, e@),
                UdpServerEvent::Received(Ok((bytes, from))) => final(self).stage
                    == UdpServerStage::Replying && final(self).sender@ == from@ && (
                r matches UdpServerAction::Reply(lines, answer) && lines@.len() == 1
                    && lines@[0]@ == "Received from "@ + from@ + ": "@ + utf8_lossy(bytes@)
                    && answer@ == encode_utf8(echo_message())),
                UdpServerEvent::Received(Err(e)) => final(self).stage == UdpServerStage::Finished
                    && (r matches UdpServerAction::Finish(lines, Ok(())) && lines@.len() == 1
                    && lines@[0]@ == "Failed to receive data: "@ + e@),
                UdpServerEvent::Replied(Ok(())) => final(self).stage == UdpServerStage::Receiving
                    && receives_after(r, "Message echoed back to "@ + old(self).sender@),
                UdpServerEvent::Replied(Err(e)) => final(self).stage == UdpServerStage::Receiving
                    && receives_after(r, "Failed to echo message: "@ + e@),
            },
    {
        match event {
            UdpServerEvent::Opened(Ok(())) => {
                self.stage = UdpServerStage::Configuring;
                UdpServerAction::AcceptIpv4
            },
            UdpServerEvent::Configured(Ok(())) => {
                self.stage = UdpServerStage::Binding;
                UdpServerAction::Bind(any_address_text(self.port))
            },
            UdpServerEvent::Bound(Ok(())) => {
                self.stage = UdpServerStage::Receiving;
                UdpServerAction::Receive(Vec::new(), REPLY_CAPACITY)
            },
            UdpServerEvent::Opened(Err(e)) | UdpServerEvent::Configured(Err(e))
            | UdpServerEvent::Bound(Err(e)) => {
                self.stage = UdpServerStage::Finished;
                UdpServerAction::Finish(Vec::new(), Err(e))
            },
            UdpServerEvent::Received(Ok((bytes, from))) => {
                self.stage = UdpServerStage::Replying;
                let message = decode_lossy(bytes.as_slice());
                let line = received_report(from.as_str(), message.as_str());
                self.sender = from;
                let mut lines: Vec<String> = Vec::new();
                lines.push(line);
                UdpServerAction::Reply(lines, "Hello, UDP client!".as_bytes_vec())
            },
            UdpServerEvent::Received(Err(e)) => {
                self.stage = UdpServerStage::Finished;
                let mut lines: Vec<String> = Vec::new();
                lines.push(joined("Failed to receive data: ", e.as_str()));
                UdpServerAction::Finish(lines, Ok(()))
            },
            UdpServerEvent::Replied(Ok(())) => {
                self.stage = UdpServerStage::Receiving;
                let mut lines: Vec<String> = Vec::new();
                lines.push(joined("Message echoed back to ", self.sender.as_str()));
                UdpServerAction::Receive(lines, REPLY_CAPACITY)
            },
            UdpServerEvent::Replied(Err(e)) => {
                self.stage = UdpServerStage::Receiving;
                let mut lines: Vec<String> = Vec::new();
                lines.push(joined("Failed to echo message: ", e.as_str()));
                UdpServerAction::Receive(lines, REPLY_CAPACITY)
            },
        }
    }
}


/// Law: the bind address is `[::]:` followed by digits that denote the port.
pub proof fn law_any_address_names_port(port: u16)
    ensures
        any_address(port).len() > 5,
        any_address(port).take(5) == "[::]:"@,
        all_digits(any_address(port).skip(5)),
        digits_value(any_address(port).skip(5)) == port as int,
{
    reveal_strlit("[::]:");
    law_decimal_reads_back(port as nat);
    assert(any_address(port).take(5) =~= "[::]:"@);
    assert(any_address(port).skip(5) =~= decimal(port as nat));
}

} // verus!
