use shared_tasks::error::ListError;
use shared_tasks::ticket::Ticket;

fn ticket_sample() -> Ticket {
    let mut topic = [0u8; 32];
    for (i, b) in topic.iter_mut().enumerate() {
        *b = i as u8;
    }
    Ticket { topic, peers: vec![vec![1, 2, 3], vec![], vec![0xff, 0xff]] }
}

fn ticket_sample_wire() -> Vec<u8> {
    let mut wire: Vec<u8> = (0u8..32).collect();
    wire.extend_from_slice(&[3, 3, 1, 2, 3, 0, 2, 255, 255]);
    wire
}

#[test]
fn a_ticket_on_the_wire_is_topic_count_and_peers() {
    assert_eq!(ticket_sample().to_bytes(), ticket_sample_wire());
    let empty = Ticket { topic: [0u8; 32], peers: vec![] };
    assert_eq!(empty.to_bytes(), vec![0u8; 33]);
}

#[test]
fn a_long_peer_descriptor_has_a_length_of_two_bytes() {
    let ticket = Ticket { topic: [9u8; 32], peers: vec![vec![5u8; 200]] };
    let bytes = ticket.to_bytes();
    assert_eq!(bytes.len(), 32 + 1 + 2 + 200);
    assert_eq!(&bytes[32..35], &[1, 0xc8, 0x01]);
    assert_eq!(Ticket::from_bytes(&bytes), Ok(ticket));
}

#[test]
fn a_ticket_is_read_from_the_wire() {
    assert_eq!(Ticket::from_bytes(&ticket_sample_wire()), Ok(ticket_sample()));
    let mut longer = ticket_sample_wire();
    longer.extend_from_slice(&[1, 2, 3]);
    assert_eq!(Ticket::from_bytes(&longer), Ok(ticket_sample()));
}

#[test]
fn malformed_bytes_hold_no_ticket() {
    assert_eq!(Ticket::from_bytes(&[]), Err(ListError::Decode));
    assert_eq!(Ticket::from_bytes(&[0u8; 32]), Err(ListError::Decode));
    let mut cut = ticket_sample_wire();
    cut.pop();
    assert_eq!(Ticket::from_bytes(&cut), Err(ListError::Decode));
}

#[test]
fn the_text_is_base_32_in_lower_case_without_padding() {
    let text = ticket_sample().to_text();
    assert_eq!(text, "aaaqeayeaudaocajbifqydiob4ibceqtcqkrmfyydenbwha5dypqgaybaibqaax774");
    let empty = Ticket { topic: [0u8; 32], peers: vec![] };
    assert_eq!(empty.to_text(), "a".repeat(53));
    assert_eq!(ticket_sample().try_to_text(), Some(text));
}

#[test]
fn the_text_of_any_ticket_has_only_lower_case_symbols() {
    let tickets = vec![
        ticket_sample(),
        Ticket { topic: [0xff; 32], peers: vec![vec![0xaa; 77], vec![0x55; 3]] },
        Ticket { topic: [0x5a; 32], peers: vec![] },
    ];
    for ticket in tickets {
        let text = ticket.to_text();
        assert!(text.chars().all(|c| c.is_ascii_lowercase() || ('2'..='7').contains(&c)));
        assert!(!text.contains('='));
    }
}

#[test]
fn the_text_of_a_ticket_gives_the_ticket_back() {
    let tickets = vec![
        ticket_sample(),
        Ticket { topic: [0u8; 32], peers: vec![] },
        Ticket { topic: [0xff; 32], peers: vec![vec![0xaa; 300], vec![], vec![1]] },
        Ticket { topic: [1; 32], peers: (0..200u8).map(|i| vec![i; i as usize]).collect() },
    ];
    for ticket in tickets {
        let text = ticket.to_text();
        assert_eq!(Ticket::from_text(&text), Ok(ticket));
    }
}

#[test]
fn the_case_of_the_text_does_not_matter() {
    let text = ticket_sample().to_text();
    assert_eq!(Ticket::from_text(&text.to_uppercase()), Ok(ticket_sample()));
    let mixed: String = text
        .chars()
        .enumerate()
        .map(|(i, c)| if i % 2 == 0 { c.to_ascii_uppercase() } else { c })
        .collect();
    assert_eq!(Ticket::from_text(&mixed), Ok(ticket_sample()));
}

#[test]
fn text_that_is_no_base_32_is_refused() {
    assert_eq!(Ticket::from_text("not a ticket!"), Err(ListError::Decode));
    assert_eq!(Ticket::from_text("aaaa1"), Err(ListError::Decode));
    assert_eq!(Ticket::from_text("aaaa0"), Err(ListError::Decode));
    assert_eq!(Ticket::from_text("aaaq===="), Err(ListError::Decode));
    assert_eq!(Ticket::from_text("é"), Err(ListError::Decode));
    let mut text = ticket_sample().to_text();
    text.push('a');
    assert_eq!(Ticket::from_text(&text), Err(ListError::Decode));
}

#[test]
fn base_32_that_holds_no_ticket_is_refused() {
    assert_eq!(Ticket::from_text(""), Err(ListError::Decode));
    assert_eq!(Ticket::from_text("aebag"), Err(ListError::Decode));
    assert_eq!(Ticket::from_text(&"a".repeat(52)), Err(ListError::Decode));
    let text = ticket_sample().to_text();
    assert_eq!(Ticket::from_text(&text[..text.len() - 2]), Err(ListError::Decode));
}

#[test]
fn the_encoding_in_use_is_canonical() {
    assert!(data_encoding::BASE32_NOPAD.is_canonical());
}

fn ticket_bit(bytes: &[u8], k: usize) -> u32 {
    if k < 8 * bytes.len() {
        ((bytes[k / 8] as u32) / (1 << (7 - k % 8))) % 2
    } else {
        0
    }
}

fn ticket_symbol(v: u32) -> char {
    if v < 26 {
        (65 + v) as u8 as char
    } else {
        (24 + v) as u8 as char
    }
}

fn ticket_base32(bytes: &[u8]) -> String {
    (0..(8 * bytes.len() + 4) / 5)
        .map(|i| {
            ticket_symbol(
                16 * ticket_bit(bytes, 5 * i)
                    + 8 * ticket_bit(bytes, 5 * i + 1)
                    + 4 * ticket_bit(bytes, 5 * i + 2)
                    + 2 * ticket_bit(bytes, 5 * i + 3)
                    + ticket_bit(bytes, 5 * i + 4),
            )
        })
        .collect()
}

fn ticket_samples() -> Vec<Vec<u8>> {
    let mut samples = vec![];
    for len in 0..40usize {
        samples.push((0..len).map(|i| (i * 37 + len * 11 + 5) as u8).collect());
        samples.push(vec![0xff; len]);
        samples.push(vec![0x00; len]);
        samples.push((0..len).map(|i| if i % 2 == 0 { 0xaa } else { 0x55 }).collect());
    }
    samples
}

#[test]
fn base_32_is_five_bits_to_a_symbol() {
    assert_eq!(ticket_base32(b""), "");
    assert_eq!(ticket_base32(b"f"), "MY");
    assert_eq!(ticket_base32(b"fo"), "MZXQ");
    assert_eq!(ticket_base32(b"foo"), "MZXW6");
    assert_eq!(ticket_base32(b"foob"), "MZXW6YQ");
    assert_eq!(ticket_base32(b"fooba"), "MZXW6YTB");
    assert_eq!(ticket_base32(b"foobar"), "MZXW6YTBOI");
    for bytes in ticket_samples() {
        assert_eq!(data_encoding::BASE32_NOPAD.encode(&bytes), ticket_base32(&bytes));
    }
}

#[test]
fn base_32_is_read_back_and_nothing_else_is_read() {
    for bytes in ticket_samples() {
        let text = ticket_base32(&bytes);
        assert_eq!(data_encoding::BASE32_NOPAD.decode(text.as_bytes()), Ok(bytes));
    }
    for text in ["A", "AAA", "AAAAAA", "AB", "AAAB", "AAAAB", "AAAAAAB", "aa", "A=", "A1", "AA======", "A A"] {
        assert!(data_encoding::BASE32_NOPAD.decode(text.as_bytes()).is_err());
    }
}

#[test]
fn the_text_of_a_ticket_is_its_wire_in_base_32() {
    let tickets = vec![
        ticket_sample(),
        Ticket { topic: [0xff; 32], peers: vec![vec![0xaa; 77], vec![0x55; 3]] },
        Ticket { topic: [0x5a; 32], peers: vec![] },
        Ticket { topic: [7; 32], peers: vec![vec![1]] },
        Ticket { topic: [7; 32], peers: vec![vec![1, 2]] },
        Ticket { topic: [7; 32], peers: vec![vec![1, 2, 3]] },
        Ticket { topic: [7; 32], peers: vec![vec![1, 2, 3, 4]] },
    ];
    for ticket in tickets {
        let expected = ticket_base32(&ticket.to_bytes()).to_ascii_lowercase();
        assert_eq!(ticket.to_text(), expected);
    }
}

fn ticket_varint(mut n: usize) -> Vec<u8> {
    let mut out = vec![];
    while n >= 128 {
        out.push((128 + n % 128) as u8);
        n /= 128;
    }
    out.push(n as u8);
    out
}

fn ticket_wire(ticket: &Ticket) -> Vec<u8> {
    let mut out = ticket.topic.to_vec();
    out.extend(ticket_varint(ticket.peers.len()));
    for peer in &ticket.peers {
        out.extend(ticket_varint(peer.len()));
        out.extend_from_slice(peer);
    }
    out
}

#[test]
fn the_wire_of_a_ticket_is_the_documented_layout() {
    let tickets = vec![
        ticket_sample(),
        Ticket { topic: [0xff; 32], peers: vec![vec![0xaa; 127], vec![0x55; 128], vec![1; 20000]] },
        Ticket { topic: [1; 32], peers: (0..200u8).map(|i| vec![i; i as usize]).collect() },
        Ticket { topic: [2; 32], peers: vec![vec![]; 130] },
    ];
    for ticket in tickets {
        let wire = ticket_wire(&ticket);
        assert_eq!(ticket.to_bytes(), wire);
        assert_eq!(Ticket::from_bytes(&wire), Ok(ticket.clone()));
        for cut in [0, 31, 32, wire.len() / 2, wire.len() - 1] {
            assert_eq!(Ticket::from_bytes(&wire[..cut]), Err(ListError::Decode));
        }
    }
}
