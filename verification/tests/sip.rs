use dahuavto::sip::{contact_from, invitation, sip_payload, SipError, SipServer, Station};

const INVITE: &str = "INVITE sip:201@192.168.1.2 SIP/2.0\r\nFrom: <sip:8001@192.168.1.9>;tag=1\r\nTo: <sip:201@192.168.1.2>\r\nContact: <sip:8001@192.168.1.9:5060>\r\n\r\n";

fn frame(source: u16, destination: u16, message: &[u8], padding: usize) -> Vec<u8> {
    let mut bytes = vec![0u8; 12];
    bytes.extend([0x08, 0x00]);
    let total = (28 + message.len()) as u16;
    let mut ip = vec![0u8; 20];
    ip[0] = 0x45;
    ip[2] = (total >> 8) as u8;
    ip[3] = total as u8;
    ip[9] = 17;
    bytes.extend(ip);
    bytes.extend(source.to_be_bytes());
    bytes.extend(destination.to_be_bytes());
    bytes.extend([0, 0, 0, 0]);
    bytes.extend_from_slice(message);
    bytes.extend(vec![0u8; padding]);
    bytes
}

fn station(host: &str, user_id: &str, client: usize) -> Station {
    Station { host: host.to_string(), user_id: user_id.to_string(), client }
}

#[test]
fn message_is_taken_out_of_its_frame() {
    assert_eq!(sip_payload(&frame(5060, 1, b"abc", 0)), Some(b"abc".to_vec()));
    assert_eq!(sip_payload(&frame(1, 5060, b"abc", 20)), Some(b"abc".to_vec()));
    assert_eq!(sip_payload(&frame(5080, 2, b"", 20)), Some(vec![]));
    assert_eq!(sip_payload(&frame(1, 5080, b"abc", 0)), Some(b"abc".to_vec()));
    assert_eq!(sip_payload(&frame(5061, 5059, b"abc", 0)), None);
}

#[test]
fn longer_header_is_passed_over() {
    let mut bytes = vec![0u8; 12];
    bytes.extend([0x08, 0x00, 0x46, 0, 0, 35]);
    bytes.extend([0, 0, 0, 0, 0, 17, 0, 0, 0, 0, 0, 0, 0, 0, 0, 0]);
    bytes.extend([9, 9, 9, 9]);
    bytes.extend([0x13, 0xc4, 0, 1, 0, 0, 0, 0]);
    bytes.extend([b'a', b'b', b'c', b'd']);
    assert_eq!(sip_payload(&bytes), Some(b"abc".to_vec()));
}

#[test]
fn shorter_header_counts_as_the_shortest() {
    let mut bytes = frame(5060, 1, b"abc", 0);
    bytes[14] = 0x40;
    assert_eq!(sip_payload(&bytes), Some(b"abc".to_vec()));
    bytes[14] = 0x4f;
    assert_eq!(sip_payload(&bytes), None);
}

#[test]
fn other_frames_hold_nothing() {
    let whole = frame(5060, 1, b"abc", 0);
    let mut other = whole.clone();
    other[12] = 0x86;
    assert_eq!(sip_payload(&other), None);
    let mut other = whole.clone();
    other[23] = 6;
    assert_eq!(sip_payload(&other), None);
    for n in [0, 13, 14, 33, 34, 41] {
        assert_eq!(sip_payload(&whole[..n]), None);
    }
    assert_eq!(sip_payload(&whole[..42]), Some(vec![]));
    assert_eq!(sip_payload(&whole[..44]), Some(b"ab".to_vec()));
}

#[test]
fn caller_is_read_from_the_invitation() {
    let contact = SipServer::parse_sip_message(INVITE.as_bytes()).unwrap();
    assert_eq!(contact.ip_address, "192.168.1.9");
    assert_eq!(contact.from_user, "8001");
    let plain = "INVITE x\nContact:<sip:@10.0.0.1>\nFrom:\t<sip:a b@c";
    let contact = SipServer::parse_sip_message(plain.as_bytes()).unwrap();
    assert_eq!(contact.ip_address, "10.0.0.1");
    assert_eq!(contact.from_user, "a b");
}

#[test]
fn messages_without_a_caller_are_told_apart() {
    let parse = |m: &[u8]| SipServer::parse_sip_message(m).unwrap_err();
    assert_eq!(parse(b"BYE sip:x"), SipError::NotInvitation);
    assert_eq!(parse(b"INV"), SipError::NotInvitation);
    assert_eq!(parse(b""), SipError::NotInvitation);
    assert_eq!(parse(b"INV\xff"), SipError::NotText);
    assert_eq!(parse(b"INVITE\nFrom: <sip:a@b>"), SipError::NoAddress);
    assert_eq!(parse(b"INVITE\nContact: <sip:a@b>"), SipError::NoUser);
    assert_eq!(parse(b"INVITE\nContact: <sip:a@b:x>\nFrom: <sip:a@b>"), SipError::NoAddress);
}

#[test]
fn found_parts_make_up_the_caller() {
    let some = |s: &str| Some(Some(s.to_string()));
    let contact = contact_from(some("1.2.3.4"), some("8001")).unwrap();
    assert_eq!((contact.ip_address.as_str(), contact.from_user.as_str()), ("1.2.3.4", "8001"));
    assert_eq!(contact_from(None, some("a")).unwrap_err(), SipError::Pattern);
    assert_eq!(contact_from(some("a"), None).unwrap_err(), SipError::Pattern);
    assert_eq!(contact_from(Some(None), None).unwrap_err(), SipError::NoAddress);
    assert_eq!(contact_from(some("a"), Some(None)).unwrap_err(), SipError::NoUser);
    assert_eq!(invitation("INVI门".as_bytes()).unwrap(), "INVI门");
}

#[test]
fn calling_station_is_known_by_its_address() {
    let server = SipServer::new(
        "eth0".to_string(),
        vec![station("192.168.1.8", "8001", 0), station("192.168.1.9", "8002", 1)],
    );
    assert_eq!(server.handle_ethernet_frame(&frame(5060, 5060, INVITE.as_bytes(), 4)), Some(1));
}

#[test]
fn calling_station_is_known_by_its_user() {
    let server = SipServer::new(
        "eth0".to_string(),
        vec![station("a", "8001", 3), station("b", "8002", 1), station("c", "8001", 2)],
    );
    assert_eq!(server.handle_ethernet_frame(&frame(5060, 5060, INVITE.as_bytes(), 0)), Some(2));
}

#[test]
fn station_that_was_replaced_is_not_known_by_its_user() {
    let stations = vec![station("a", "8001", 0), station("a", "8002", 1)];
    let server = SipServer::new("eth0".to_string(), stations);
    assert_eq!(server.handle_ethernet_frame(&frame(5060, 5060, INVITE.as_bytes(), 0)), None);
    let stations = vec![station("a", "8002", 0), station("a", "8001", 1)];
    let server = SipServer::new("eth0".to_string(), stations);
    assert_eq!(server.handle_ethernet_frame(&frame(5060, 5060, INVITE.as_bytes(), 0)), Some(1));
}

#[test]
fn strangers_do_not_call() {
    let server = SipServer::new("eth0".to_string(), vec![station("a", "b", 0)]);
    assert_eq!(server.handle_ethernet_frame(&frame(5060, 5060, INVITE.as_bytes(), 0)), None);
    assert_eq!(server.handle_ethernet_frame(&frame(5060, 5060, b"BYE x", 0)), None);
    assert_eq!(server.handle_ethernet_frame(&[]), None);
}

#[test]
fn interface_is_chosen_by_name() {
    let server = SipServer::new("eth0".to_string(), vec![]);
    let names = ["lo".to_string(), "eth0".to_string(), "eth0".to_string()];
    assert_eq!(server.run(&names), Ok(1));
    assert_eq!(server.run(&names[..1]), Err("找不到 eth0 接口".to_string()));
}
