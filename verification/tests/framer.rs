use chat_server::framer::{decode_record, encode_line, LineFramer, LINE_FEED};

fn bytes(s: &str) -> Vec<u8> {
    s.as_bytes().to_vec()
}

#[test]
fn the_line_feed_is_byte_ten() {
    assert_eq!(LINE_FEED, b'\n');
}

#[test]
fn a_whole_line_is_one_record() {
    let mut framer = LineFramer::new();
    assert_eq!(framer.push(b"hello\n"), vec![bytes("hello")]);
    assert_eq!(framer.pending_len(), 0);
}

#[test]
fn an_unfinished_line_waits() {
    let mut framer = LineFramer::new();
    assert_eq!(framer.push(b"hel"), Vec::<Vec<u8>>::new());
    assert_eq!(framer.pending_len(), 3);
    assert_eq!(framer.push(b"lo"), Vec::<Vec<u8>>::new());
    assert_eq!(framer.pending_len(), 5);
    assert_eq!(framer.push(b"\n"), vec![bytes("hello")]);
    assert_eq!(framer.pending_len(), 0);
}

#[test]
fn one_chunk_can_hold_many_lines() {
    let mut framer = LineFramer::new();
    assert_eq!(
        framer.push(b"/name Alice\nhello\n\n/quit\npart"),
        vec![bytes("/name Alice"), bytes("hello"), bytes(""), bytes("/quit")]
    );
    assert_eq!(framer.pending_len(), 4);
    assert_eq!(framer.push(b"ial\nx"), vec![bytes("partial")]);
    assert_eq!(framer.pending_len(), 1);
}

#[test]
fn an_empty_chunk_changes_nothing() {
    let mut framer = LineFramer::new();
    assert_eq!(framer.push(b"ab"), Vec::<Vec<u8>>::new());
    assert_eq!(framer.push(b""), Vec::<Vec<u8>>::new());
    assert_eq!(framer.pending_len(), 2);
    assert_eq!(framer.push(b"\n"), vec![bytes("ab")]);
}

#[test]
fn cutting_the_stream_anywhere_gives_the_same_records() {
    let stream = b"one\ntwo\n\nthree\nrest";
    let mut whole = LineFramer::new();
    let expected = whole.push(stream);
    for cut in 0..=stream.len() {
        let mut framer = LineFramer::new();
        let mut got = framer.push(&stream[..cut]);
        got.extend(framer.push(&stream[cut..]));
        assert_eq!(got, expected);
        assert_eq!(framer.pending_len(), whole.pending_len());
    }
    let mut bytewise = LineFramer::new();
    let mut got: Vec<Vec<u8>> = Vec::new();
    for byte in stream.iter() {
        got.extend(bytewise.push(&[*byte]));
    }
    assert_eq!(got, expected);
}

#[test]
fn a_carriage_return_stays_in_the_record() {
    let mut framer = LineFramer::new();
    assert_eq!(framer.push(b"hi\r\n"), vec![bytes("hi\r")]);
}

#[test]
fn a_line_is_encoded_with_its_line_feed() {
    assert_eq!(encode_line("hello"), bytes("hello\n"));
    assert_eq!(encode_line(""), bytes("\n"));
    assert_eq!(encode_line("\u{e9}"), vec![0xC3, 0xA9, 0x0A]);
}

#[test]
fn an_encoded_line_comes_back_as_one_record() {
    let mut framer = LineFramer::new();
    let records = framer.push(&encode_line("(Alice): gr\u{fc}\u{df}e"));
    assert_eq!(records.len(), 1);
    assert_eq!(
        decode_record(records[0].clone()),
        Some("(Alice): gr\u{fc}\u{df}e".to_string())
    );
}

#[test]
fn a_record_that_is_text_is_decoded() {
    assert_eq!(decode_record(bytes("hello")), Some("hello".to_string()));
    assert_eq!(decode_record(Vec::new()), Some(String::new()));
    assert_eq!(decode_record(vec![0xE2, 0x82, 0xAC]), Some("\u{20ac}".to_string()));
}

#[test]
fn a_record_that_is_not_text_is_refused() {
    assert_eq!(decode_record(vec![0xFF]), None);
    assert_eq!(decode_record(vec![b'a', 0xC3]), None);
    assert_eq!(decode_record(vec![0xC0, 0x80]), None);
    assert_eq!(decode_record(vec![0xED, 0xA0, 0x80]), None);
}
