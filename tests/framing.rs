use tweet_stream::Framer;

#[test]
fn framing_across_chunks() {
    let mut f = Framer::new();
    assert_eq!(f.next_payload(), None);
    f.push_chunk(b"{\"a\":1}\r\n{\"b");
    assert_eq!(f.next_payload(), Some(b"{\"a\":1}\r\n".to_vec()));
    assert_eq!(f.next_payload(), None);
    f.push_chunk(b"\":2}\r\n");
    assert_eq!(f.next_payload(), Some(b"{\"b\":2}\r\n".to_vec()));
    assert_eq!(f.next_payload(), None);
}

#[test]
fn several_payloads_in_one_chunk() {
    let mut f = Framer::new();
    f.push_chunk(b"x\r\n\r\ny\r\nrest");
    assert_eq!(f.next_payload(), Some(b"x\r\n".to_vec()));
    assert_eq!(f.next_payload(), Some(b"\r\n".to_vec()));
    assert_eq!(f.next_payload(), Some(b"y\r\n".to_vec()));
    assert_eq!(f.next_payload(), None);
}

#[test]
fn crlf_split_across_chunks() {
    let mut f = Framer::new();
    f.push_chunk(b"ab\r");
    assert_eq!(f.next_payload(), None);
    f.push_chunk(b"\ncd");
    assert_eq!(f.next_payload(), Some(b"ab\r\n".to_vec()));
    assert_eq!(f.next_payload(), None);
}

#[test]
fn chunking_does_not_change_payloads() {
    let stream: &[u8] = b"{\"a\":1}\r\n\r\n{\"b\":2}\r\ntail";
    let mut whole = Framer::new();
    whole.push_chunk(stream);
    let mut expected = Vec::new();
    while let Some(p) = whole.next_payload() {
        expected.push(p);
    }
    for size in 1..stream.len() {
        let mut f = Framer::new();
        let mut got = Vec::new();
        for chunk in stream.chunks(size) {
            f.push_chunk(chunk);
            while let Some(p) = f.next_payload() {
                got.push(p);
            }
        }
        assert_eq!(got, expected);
    }
    assert_eq!(expected.concat(), b"{\"a\":1}\r\n\r\n{\"b\":2}\r\n".to_vec());
}
