use dahuavto::frame::{drop_packet, is_countable, make_header, next_packet, HEADER_SIZE};

fn packet(session: u32, request: u32, body: &[u8]) -> Vec<u8> {
    let mut bytes = make_header(session, request, body.len());
    bytes.extend_from_slice(body);
    bytes
}

#[test]
fn header_has_its_form() {
    assert_eq!(
        make_header(0x01020304, 0x0a0b0c0d, 0x102),
        vec![
            0x20, 0, 0, 0, b'D', b'H', b'I', b'P', 4, 3, 2, 1, 0x0d, 0x0c, 0x0b, 0x0a, 2, 1, 0, 0,
            0, 0, 0, 0, 2, 1, 0, 0, 0, 0, 0, 0
        ]
    );
}

#[test]
fn sent_packet_is_read_back() {
    let mut bytes = packet(7, 8, b"{}");
    bytes.extend_from_slice(b"more");
    let read = next_packet(&bytes).unwrap().unwrap();
    assert_eq!(read.body, b"{}");
    assert_eq!(read.tail, HEADER_SIZE + 2);
    drop_packet(&mut bytes, read.tail);
    assert_eq!(bytes, b"more");
}

#[test]
fn packets_are_read_one_after_the_other() {
    let mut bytes = packet(1, 1, b"one");
    bytes.extend(packet(1, 2, b"two"));
    bytes.extend(packet(1, 3, b"three"));
    let mut bodies: Vec<Vec<u8>> = Vec::new();
    while let Some(read) = next_packet(&bytes).unwrap() {
        drop_packet(&mut bytes, read.tail);
        bodies.push(read.body);
    }
    assert_eq!(bodies, vec![b"one".to_vec(), b"two".to_vec(), b"three".to_vec()]);
    assert!(bytes.is_empty());
}

#[test]
fn part_of_a_packet_is_waited_for() {
    let bytes = packet(1, 2, b"abc");
    for n in 0..bytes.len() {
        assert!(next_packet(&bytes[..n].to_vec()).unwrap().is_none());
    }
    assert!(next_packet(&bytes).unwrap().is_some());
}

#[test]
fn header_behind_a_packet_goes_with_it() {
    let mut bytes = packet(1, 2, b"abc");
    bytes.extend(vec![0u8; HEADER_SIZE]);
    let read = next_packet(&bytes).unwrap().unwrap();
    assert_eq!(read.body, b"abc");
    assert_eq!(read.tail, bytes.len());
    bytes.push(0);
    assert_eq!(next_packet(&bytes).unwrap().unwrap().tail, HEADER_SIZE + 3);
}

#[test]
fn foreign_bytes_are_refused() {
    let mut bytes = packet(1, 2, b"abc");
    bytes[4] = b'X';
    assert!(next_packet(&bytes).is_err());
    assert!(next_packet(&bytes[..31].to_vec()).unwrap().is_none());
}

#[test]
fn length_beyond_memory_is_seen() {
    let mut bytes = make_header(1, 2, 5);
    assert!(is_countable(&bytes));
    for b in bytes[24..32].iter_mut() {
        *b = 0xff;
    }
    assert!(!is_countable(&bytes));
    assert!(is_countable(&bytes[..31].to_vec()));
}
