use source_servers_list::rcon::{
    challenge_readable_exec, challenge_request_exec, command_datagram_exec, decode_packet, pkt,
    rcon, read_challenge, read_reply_datagram, RconAction, RconEvent, RconExchange, RconStage,
};

fn marked(text: &[u8]) -> Vec<u8> {
    let mut d = vec![0xff, 0xff, 0xff, 0xff];
    d.extend_from_slice(text);
    d
}

fn body_of(packet: &[u8]) -> Vec<u8> {
    packet[4..].to_vec()
}

#[test]
fn packet_layout() {
    assert_eq!(
        pkt(1, 3, "pw"),
        vec![12, 0, 0, 0, 1, 0, 0, 0, 3, 0, 0, 0, b'p', b'w', 0, 0]
    );
    assert_eq!(pkt(3, 2, ""), vec![10, 0, 0, 0, 3, 0, 0, 0, 2, 0, 0, 0, 0, 0]);
}

#[test]
fn packet_negative_id() {
    let p = pkt(-1, 2, "");
    assert_eq!(&p[4..8], &[0xff, 0xff, 0xff, 0xff]);
    let (id, ty, body) = decode_packet(&body_of(&p)).unwrap();
    assert_eq!((id, ty, body.as_str()), (-1, 2, ""));
}

#[test]
fn packet_roundtrip() {
    for (id, ty, text) in [(7, 0, "hostname: x\nmap: y"), (2, 2, "status"), (0, 0, "")] {
        let p = pkt(id, ty, text);
        let len = i32::from_le_bytes([p[0], p[1], p[2], p[3]]);
        assert_eq!(len as usize, p.len() - 4);
        let (rid, rty, rbody) = decode_packet(&body_of(&p)).unwrap();
        assert_eq!((rid, rty, rbody.as_str()), (id, ty, text));
    }
}

#[test]
fn packet_body_nuls_trimmed() {
    let buf = vec![5, 0, 0, 0, 0, 0, 0, 0, 0, b'a', 0, b'b', 0, 0];
    let (id, ty, body) = decode_packet(&buf).unwrap();
    assert_eq!((id, ty, body.as_str()), (5, 0, "a\0b"));
}

#[test]
fn packet_too_short() {
    assert!(decode_packet(&[1, 0, 0, 0, 2, 0, 0]).is_none());
    assert!(decode_packet(&[]).is_none());
}

#[test]
fn packet_lossy_text() {
    let buf = vec![1, 0, 0, 0, 2, 0, 0, 0, b'o', 0xff, b'k'];
    let (_, _, body) = decode_packet(&buf).unwrap();
    assert_eq!(body, "o\u{fffd}k");
}

#[test]
fn goldsrc_datagrams() {
    assert_eq!(challenge_request_exec(), marked(b"challenge rcon"));
    assert_eq!(
        command_datagram_exec("123", "pw", "status"),
        marked(b"rcon 123 pw status\0")
    );
}

#[test]
fn goldsrc_challenge() {
    let d = marked(b"challenge rcon 4815162342\n\0");
    assert!(challenge_readable_exec(&d));
    assert_eq!(read_challenge(&d).unwrap(), "4815162342");
    let other = marked(b"print\nBad rcon\n");
    assert!(challenge_readable_exec(&other));
    assert!(read_challenge(&other).is_none());
    let invalid = marked(&[0xc3, 0x28]);
    assert!(challenge_readable_exec(&invalid));
    assert!(read_challenge(&invalid).is_none());
    assert!(!challenge_readable_exec(&[0xff, 0xff]));
    assert!(!challenge_readable_exec(&marked(b"challenge rcon 1234")));
}

#[test]
fn goldsrc_reply_text() {
    assert_eq!(read_reply_datagram(&marked(b"lhostname: A\n")), "lhostname: A\n");
    assert_eq!(read_reply_datagram(&marked(&[b'a', 0xfe])), "a\u{fffd}");
}

fn expect_write(a: RconAction) -> Vec<u8> {
    match a {
        RconAction::TcpWrite(b) => b,
        other => panic!("expected a write, got {:?}", other),
    }
}

fn step(ex: &mut RconExchange, e: RconEvent) -> RconAction {
    assert!(ex.accepts(&e));
    ex.step(e)
}

#[test]
fn source_exchange_collects_answer() {
    let (mut ex, first) = rcon("10.0.0.1:27015", "pw", "status");
    assert!(matches!(first, RconAction::TcpConnect));
    assert_eq!(expect_write(step(&mut ex, RconEvent::Done)), pkt(1, 3, "pw"));
    assert!(matches!(step(&mut ex, RconEvent::Done), RconAction::TcpRead));
    // an empty response value comes before the auth response
    assert!(matches!(
        step(&mut ex, RconEvent::Frame(body_of(&pkt(1, 0, "")))),
        RconAction::TcpRead
    ));
    assert_eq!(
        expect_write(step(&mut ex, RconEvent::Frame(body_of(&pkt(1, 2, ""))))),
        pkt(2, 2, "status")
    );
    assert_eq!(expect_write(step(&mut ex, RconEvent::Done)), pkt(3, 2, ""));
    assert!(matches!(step(&mut ex, RconEvent::Done), RconAction::TcpRead));
    assert!(matches!(
        step(&mut ex, RconEvent::Frame(body_of(&pkt(2, 0, "hostname: A\n")))),
        RconAction::TcpRead
    ));
    assert!(matches!(
        step(&mut ex, RconEvent::Frame(body_of(&pkt(9, 0, "ignored")))),
        RconAction::TcpRead
    ));
    assert!(matches!(
        step(&mut ex, RconEvent::Frame(body_of(&pkt(2, 0, "map: B\n")))),
        RconAction::TcpRead
    ));
    match step(&mut ex, RconEvent::Frame(body_of(&pkt(3, 0, "")))) {
        RconAction::Finish(Some(s)) => assert_eq!(s, "hostname: A\nmap: B\n"),
        other => panic!("unexpected {:?}", other),
    }
    assert_eq!(ex.stage, RconStage::Finished);
    match step(&mut ex, RconEvent::Failed) {
        RconAction::Finish(Some(s)) => assert_eq!(s, "hostname: A\nmap: B\n"),
        other => panic!("unexpected {:?}", other),
    }
}

#[test]
fn source_rejected_password_falls_back() {
    let (mut ex, _) = rcon("10.0.0.1:27015", "wrong", "status");
    step(&mut ex, RconEvent::Done);
    step(&mut ex, RconEvent::Done);
    assert!(matches!(
        step(&mut ex, RconEvent::Frame(body_of(&pkt(-1, 2, "")))),
        RconAction::UdpOpen
    ));
    assert_eq!(ex.stage, RconStage::UdpOpen);
}

#[test]
fn source_failure_falls_back_goldsrc_answers() {
    let (mut ex, _) = rcon("10.0.0.2:27015", "pw", "status");
    assert!(matches!(step(&mut ex, RconEvent::Failed), RconAction::UdpOpen));
    match step(&mut ex, RconEvent::Done) {
        RconAction::UdpSend(d) => assert_eq!(d, marked(b"challenge rcon")),
        other => panic!("unexpected {:?}", other),
    }
    assert!(matches!(step(&mut ex, RconEvent::Done), RconAction::UdpRecv));
    match step(&mut ex, RconEvent::Datagram(marked(b"challenge rcon 12345\n\0"))) {
        RconAction::UdpSend(d) => assert_eq!(d, marked(b"rcon 12345 pw status\0")),
        other => panic!("unexpected {:?}", other),
    }
    assert!(matches!(step(&mut ex, RconEvent::Done), RconAction::UdpRecv));
    match step(&mut ex, RconEvent::Datagram(marked(b"lhostname: Sven\n"))) {
        RconAction::Finish(Some(s)) => assert_eq!(s, "lhostname: Sven\n"),
        other => panic!("unexpected {:?}", other),
    }
}

#[test]
fn goldsrc_failure_ends_without_answer() {
    let (mut ex, _) = rcon("10.0.0.3:27015", "pw", "status");
    step(&mut ex, RconEvent::Failed);
    step(&mut ex, RconEvent::Done);
    assert!(matches!(step(&mut ex, RconEvent::Failed), RconAction::Finish(None)));
    let (mut ex2, _) = rcon("10.0.0.3:27015", "pw", "status");
    step(&mut ex2, RconEvent::Failed);
    step(&mut ex2, RconEvent::Done);
    step(&mut ex2, RconEvent::Done);
    assert!(matches!(
        step(&mut ex2, RconEvent::Datagram(marked(b"print\nno\n"))),
        RconAction::Finish(None)
    ));
}

#[test]
fn malformed_challenge_not_accepted() {
    let (mut ex, _) = rcon("10.0.0.3:27015", "pw", "status");
    step(&mut ex, RconEvent::Failed);
    step(&mut ex, RconEvent::Done);
    step(&mut ex, RconEvent::Done);
    assert!(!ex.accepts(&RconEvent::Datagram(marked(b"challenge rcon 99"))));
    assert!(!ex.accepts(&RconEvent::Datagram(vec![0xff])));
}
