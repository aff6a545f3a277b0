use netstack::echo_server::{
    echo_server, print_incoming_device_info, to_ipv4_mapped, PeerIp, TcpServerAction,
    TcpServerEvent, TcpServerStage,
};
use netstack::echo_udp_server::{echo_udp_server, UdpServerAction, UdpServerEvent, UdpServerStage};
use netstack::ipv4::Ipv4Address;
use netstack::tcp_client::{create_tcp_client, ConnectFailure, TcpAction, TcpEvent, TcpStage};
use netstack::udp_client::{create_udp_client, UdpAction, UdpEvent, UdpExchange, UdpStage};

fn s(t: &str) -> String {
    t.to_string()
}

fn udp_at_stage(stage: UdpStage) -> UdpExchange {
    let (mut x, _) = create_udp_client(s("localhost"), 7878);
    let _ = x.step(UdpEvent::Opened(Ok(())));
    if stage == UdpStage::Resolving {
        return x;
    }
    let _ = x.step(UdpEvent::Resolved(Ok(Some(s("127.0.0.1:7878")))));
    if stage == UdpStage::Connecting {
        return x;
    }
    let _ = x.step(UdpEvent::Connected(Ok(())));
    if stage == UdpStage::Sending {
        return x;
    }
    let _ = x.step(UdpEvent::Sent(Ok(())));
    x
}

fn finish_err(a: UdpAction) -> String {
    match a {
        UdpAction::Finish(Err(t)) => t,
        other => panic!("not a failure: {other:?}"),
    }
}

#[test]
fn udp_client_happy_path() {
    let (mut x, a) = create_udp_client(s("localhost"), 7878);
    assert!(matches!(a, UdpAction::OpenSocket));
    assert!(!x.setup_failure_is_fatal);
    match x.step(UdpEvent::Opened(Ok(()))) {
        UdpAction::Resolve(t) => assert_eq!(t, "localhost:7878"),
        other => panic!("{other:?}"),
    }
    assert!(matches!(x.step(UdpEvent::Resolved(Ok(Some(s("127.0.0.1:7878"))))), UdpAction::Connect));
    assert_eq!(x.peer, "127.0.0.1:7878");
    match x.step(UdpEvent::Connected(Ok(()))) {
        UdpAction::Send(m) => assert_eq!(m, b"hello server".to_vec()),
        other => panic!("{other:?}"),
    }
    assert!(matches!(x.step(UdpEvent::Sent(Ok(()))), UdpAction::Receive(512)));
    match x.step(UdpEvent::Received(Ok(b"pong \xe2\x9c\x93".to_vec()))) {
        UdpAction::Finish(Ok(t)) => assert_eq!(t, "pong \u{2713}"),
        other => panic!("{other:?}"),
    }
    assert_eq!(x.stage, UdpStage::Finished);
}

#[test]
fn udp_client_decodes_invalid_bytes_lossily() {
    let mut x = udp_at_stage(UdpStage::Receiving);
    match x.step(UdpEvent::Received(Ok(vec![b'o', b'k', 0xff, b'!']))) {
        UdpAction::Finish(Ok(t)) => assert_eq!(t, "ok\u{fffd}!"),
        other => panic!("{other:?}"),
    }
}

#[test]
fn udp_client_failures() {
    let (mut x, _) = create_udp_client(s("localhost"), 7878);
    assert_eq!(finish_err(x.step(UdpEvent::Opened(Err(s("no sockets"))))), "no sockets");
    let mut x = udp_at_stage(UdpStage::Resolving);
    assert_eq!(
        finish_err(x.step(UdpEvent::Resolved(Ok(None)))),
        "No valid address found for localhost:7878"
    );
    let mut x = udp_at_stage(UdpStage::Resolving);
    assert_eq!(
        finish_err(x.step(UdpEvent::Resolved(Err(s("unknown host"))))),
        "Failed to parse address localhost on port 7878: unknown host"
    );
    let mut x = udp_at_stage(UdpStage::Connecting);
    assert_eq!(
        finish_err(x.step(UdpEvent::Connected(Err(s("refused"))))),
        "Failed to connect to 127.0.0.1:7878: refused"
    );
    let mut x = udp_at_stage(UdpStage::Sending);
    assert_eq!(finish_err(x.step(UdpEvent::Sent(Err(s("full"))))), "Failed to send message: full");
    let mut x = udp_at_stage(UdpStage::Receiving);
    assert_eq!(
        finish_err(x.step(UdpEvent::Received(Err(s("timed out"))))),
        "Failed to receive response: timed out"
    );
    assert_eq!(x.stage, UdpStage::Finished);
}

#[test]
fn fatal_setup_failures_abort() {
    let (mut x, _) = UdpExchange::new(s("8.8.8.8"), 53, vec![1, 2], true);
    assert!(matches!(x.step(UdpEvent::Opened(Err(s("e")))), UdpAction::Abort(t) if t == "e"));
    let (mut x, _) = UdpExchange::new(s("8.8.8.8"), 53, vec![1, 2], true);
    let _ = x.step(UdpEvent::Opened(Ok(())));
    assert!(matches!(
        x.step(UdpEvent::Resolved(Ok(None))),
        UdpAction::Abort(t) if t == "No valid address found for 8.8.8.8:53"
    ));
}

fn tcp_connected() -> netstack::tcp_client::TcpClient {
    let (mut c, _) = create_tcp_client(s("localhost"), 7878);
    let _ = c.step(TcpEvent::Opened(Ok(())));
    let _ = c.step(TcpEvent::Resolved(Ok(Some(s("127.0.0.1:7878")))));
    let _ = c.step(TcpEvent::Connected(Ok(())));
    c
}

#[test]
fn tcp_client_session() {
    let (mut c, a) = create_tcp_client(s("localhost"), 7878);
    assert!(matches!(a, TcpAction::OpenSocket));
    match c.step(TcpEvent::Opened(Ok(()))) {
        TcpAction::Resolve(t) => assert_eq!(t, "localhost:7878"),
        other => panic!("{other:?}"),
    }
    assert!(matches!(c.step(TcpEvent::Resolved(Ok(Some(s("[::1]:7878"))))), TcpAction::Connect));
    match c.step(TcpEvent::Connected(Ok(()))) {
        TcpAction::ReadLine(lines) => assert_eq!(
            lines,
            vec![
                s("Successfully connected to localhost:7878"),
                s("Type 'close' to terminate the connection.")
            ]
        ),
        other => panic!("{other:?}"),
    }
    match c.step(TcpEvent::LineRead(Ok(s("  hello there \r\n")))) {
        TcpAction::Send(b) => assert_eq!(b, b"hello there".to_vec()),
        other => panic!("{other:?}"),
    }
    assert_eq!(c.stage, TcpStage::Sending);
    assert!(matches!(c.step(TcpEvent::Sent(Ok(()))), TcpAction::ReadLine(l) if l.is_empty()));
    match c.step(TcpEvent::LineRead(Ok(s("\u{3000}close\t\n")))) {
        TcpAction::Finish(lines, Ok(())) => {
            assert_eq!(lines, vec![s("Closing connection to localhost:7878")])
        }
        other => panic!("{other:?}"),
    }
    assert_eq!(c.stage, TcpStage::Finished);
}

#[test]
fn tcp_client_sends_empty_and_near_miss_lines() {
    let mut c = tcp_connected();
    assert!(matches!(c.step(TcpEvent::LineRead(Ok(s("")))), TcpAction::Send(b) if b.is_empty()));
    let _ = c.step(TcpEvent::Sent(Ok(())));
    assert!(matches!(
        c.step(TcpEvent::LineRead(Ok(s("close it\n")))),
        TcpAction::Send(b) if b == b"close it".to_vec()
    ));
    let _ = c.step(TcpEvent::Sent(Ok(())));
    assert!(matches!(
        c.step(TcpEvent::LineRead(Ok(s("Close\n")))),
        TcpAction::Send(b) if b == b"Close".to_vec()
    ));
}

#[test]
fn tcp_client_connection_failures() {
    for (kind, want) in [
        (ConnectFailure::Refused, "Connection refused: Is the server running on h:1?"),
        (ConnectFailure::TimedOut, "Connection timed out: Could not connect to h:1"),
        (ConnectFailure::Other, "Failed to connect to h:1: network down"),
    ] {
        let (mut c, _) = create_tcp_client(s("h"), 1);
        let _ = c.step(TcpEvent::Opened(Ok(())));
        let _ = c.step(TcpEvent::Resolved(Ok(Some(s("10.0.0.1:1")))));
        match c.step(TcpEvent::Connected(Err((kind, s("network down"))))) {
            TcpAction::Finish(lines, Err(t)) => {
                assert!(lines.is_empty());
                assert_eq!(t, want);
            }
            other => panic!("{other:?}"),
        }
    }
}

#[test]
fn tcp_client_other_failures() {
    let (mut c, _) = create_tcp_client(s("h"), 1);
    let _ = c.step(TcpEvent::Opened(Ok(())));
    assert!(matches!(
        c.step(TcpEvent::Resolved(Ok(None))),
        TcpAction::Finish(_, Err(t)) if t == "No valid address found for h:1"
    ));
    let mut c = tcp_connected();
    assert!(matches!(
        c.step(TcpEvent::LineRead(Err(s("bad input")))),
        TcpAction::Abort(t) if t == "Failed to read line from stdin: bad input"
    ));
    let mut c = tcp_connected();
    let _ = c.step(TcpEvent::LineRead(Ok(s("x"))));
    assert!(matches!(c.step(TcpEvent::Sent(Err(s("broken pipe")))), TcpAction::Finish(_, Err(t)) if t == "broken pipe"));
}

#[test]
fn udp_server_session() {
    let (mut srv, a) = echo_udp_server(9000);
    assert!(matches!(a, UdpServerAction::OpenSocket));
    assert!(matches!(srv.step(UdpServerEvent::Opened(Ok(()))), UdpServerAction::AcceptIpv4));
    assert!(matches!(srv.step(UdpServerEvent::Configured(Ok(()))), UdpServerAction::Bind(t) if t == "[::]:9000"));
    assert!(matches!(srv.step(UdpServerEvent::Bound(Ok(()))), UdpServerAction::Receive(l, 512) if l.is_empty()));
    match srv.step(UdpServerEvent::Received(Ok((b"hi".to_vec(), s("[::1]:5000"))))) {
        UdpServerAction::Reply(lines, answer) => {
            assert_eq!(lines, vec![s("Received from [::1]:5000: hi")]);
            assert_eq!(answer, b"Hello, UDP client!".to_vec());
        }
        other => panic!("{other:?}"),
    }
    assert!(matches!(
        srv.step(UdpServerEvent::Replied(Ok(()))),
        UdpServerAction::Receive(l, 512) if l == vec![s("Message echoed back to [::1]:5000")]
    ));
    let _ = srv.step(UdpServerEvent::Received(Ok((vec![0xc3], s("1.2.3.4:5")))));
    assert!(matches!(
        srv.step(UdpServerEvent::Replied(Err(s("unreachable")))),
        UdpServerAction::Receive(l, 512) if l == vec![s("Failed to echo message: unreachable")]
    ));
    assert!(matches!(
        srv.step(UdpServerEvent::Received(Err(s("closed")))),
        UdpServerAction::Finish(l, Ok(())) if l == vec![s("Failed to receive data: closed")]
    ));
    assert_eq!(srv.stage, UdpServerStage::Finished);
    let (mut srv, _) = echo_udp_server(1);
    let _ = srv.step(UdpServerEvent::Opened(Ok(())));
    assert!(matches!(srv.step(UdpServerEvent::Configured(Err(s("no v6")))), UdpServerAction::Finish(l, Err(t)) if l.is_empty() && t == "no v6"));
}

#[test]
fn ipv4_mapped_addresses() {
    let mut o = [0u8; 16];
    o[10] = 0xff;
    o[11] = 0xff;
    o[12..].copy_from_slice(&[192, 0, 2, 1]);
    assert_eq!(to_ipv4_mapped(&o).unwrap().octets, [192, 0, 2, 1]);
    let mut p = o;
    p[0] = 0x20;
    assert!(to_ipv4_mapped(&p).is_none());
    let mut q = o;
    q[11] = 0xfe;
    assert!(to_ipv4_mapped(&q).is_none());
    let mut zero_mapped = [0u8; 16];
    zero_mapped[10] = 0xff;
    zero_mapped[11] = 0xff;
    assert_eq!(to_ipv4_mapped(&zero_mapped).unwrap().octets, [0, 0, 0, 0]);
    let mut loopback = [0u8; 16];
    loopback[15] = 1;
    assert!(to_ipv4_mapped(&loopback).is_none());
}

#[test]
fn device_info_lines() {
    assert_eq!(
        print_incoming_device_info(&PeerIp::V4(Ipv4Address::new(127, 0, 0, 1)), 5050),
        vec![s("v4: 127.0.0.1"), s("5050")]
    );
    let mut o = [0u8; 16];
    o[10] = 0xff;
    o[11] = 0xff;
    o[12..].copy_from_slice(&[10, 0, 0, 7]);
    assert_eq!(
        print_incoming_device_info(&PeerIp::V6 { octets: o, text: s("::ffff:10.0.0.7") }, 80),
        vec![s("v6: ::ffff:10.0.0.7"), s("v4 mapped: 10.0.0.7"), s("80")]
    );
    let mut l = [0u8; 16];
    l[15] = 1;
    assert_eq!(
        print_incoming_device_info(&PeerIp::V6 { octets: l, text: s("::1") }, 0),
        vec![s("v6: ::1"), s("0")]
    );
}

#[test]
fn tcp_server_session() {
    let (mut srv, a) = echo_server(7878);
    assert!(matches!(a, TcpServerAction::OpenSocket));
    assert!(matches!(srv.step(TcpServerEvent::Opened(Ok(()))), TcpServerAction::AcceptIpv4));
    assert!(matches!(srv.step(TcpServerEvent::Configured(Ok(()))), TcpServerAction::Bind(t) if t == "[::]:7878"));
    assert!(matches!(srv.step(TcpServerEvent::Bound(Ok(()))), TcpServerAction::Listen(128)));
    assert!(matches!(
        srv.step(TcpServerEvent::Listened(Ok(()))),
        TcpServerAction::Accept(l) if l == vec![s("Server listening on port 7878")]
    ));
    let peer = PeerIp::V4(Ipv4Address::new(192, 168, 0, 9));
    assert!(matches!(
        srv.step(TcpServerEvent::Accepted(Ok(Ok((peer, 40000))))),
        TcpServerAction::Read(l, 512) if l == vec![s("v4: 192.168.0.9"), s("40000")]
    ));
    assert!(matches!(
        srv.step(TcpServerEvent::Read(Ok(b"line one\n".to_vec()))),
        TcpServerAction::Read(l, 512) if l == vec![s("line one\n")]
    ));
    assert!(matches!(
        srv.step(TcpServerEvent::Read(Ok(vec![]))),
        TcpServerAction::Accept(l) if l == vec![s("\n---\n")]
    ));
    let _ = srv.step(TcpServerEvent::Accepted(Ok(Ok((PeerIp::V4(Ipv4Address::new(1, 1, 1, 1)), 1)))));
    assert!(matches!(
        srv.step(TcpServerEvent::Read(Err(s("reset")))),
        TcpServerAction::Accept(l) if l == vec![s("Failed to read from stream: reset")]
    ));
    assert!(matches!(
        srv.step(TcpServerEvent::Accepted(Ok(Err(s("not connected"))))),
        TcpServerAction::Abort(t) if t == "not connected"
    ));
    assert_eq!(srv.stage, TcpServerStage::Finished);
    let (mut srv, _) = echo_server(1);
    assert!(matches!(srv.step(TcpServerEvent::Opened(Err(s("denied")))), TcpServerAction::Finish(Err(t)) if t == "denied"));
}

#[test]
fn report_of_a_datagram() {
    assert_eq!(
        netstack::echo_udp_server::received_report("10.0.0.1:9", "hey"),
        "Received from 10.0.0.1:9: hey"
    );
}
