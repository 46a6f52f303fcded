use dataviewer::stream::Stream;

#[test]
fn messages_split_at_the_delimiter() {
    let mut s = Stream::new();
    s.push_bytes(&vec![b'h', b'e', b'l', 0, b'w', b'o']);
    assert_eq!(s.read_utf8_upto(0), Some("hel".to_string()));
    assert_eq!(s.read_utf8_upto(0), None);
    s.push_bytes(&vec![0]);
    assert_eq!(s.read_utf8_upto(0), Some("wo".to_string()));
}

#[test]
fn empty_message_between_delimiters() {
    let mut s = Stream::new();
    s.push_bytes(&vec![0, b'a', 0]);
    assert_eq!(s.read_utf8_upto(0), Some(String::new()));
    assert_eq!(s.read_utf8_upto(0), Some("a".to_string()));
}

#[test]
fn non_ascii_bytes_are_dropped() {
    let mut s = Stream::new();
    s.push_bytes(&vec![b'a', 0xC3, 0xA9, b'b', 0]);
    assert_eq!(s.read_utf8_upto(0), Some("ab".to_string()));
}

#[test]
fn chunks_accumulate_until_a_delimiter_arrives() {
    let mut s = Stream::new();
    s.push_bytes(&vec![b'x']);
    assert_eq!(s.read_utf8_upto(0), None);
    s.push_bytes(&vec![b'y', 0]);
    assert_eq!(s.read_utf8_upto(0), Some("xy".to_string()));
}

#[test]
fn remainder_is_flushed_on_close() {
    let mut s = Stream::new();
    s.push_bytes(&vec![b'e', b'n', b'd']);
    assert_eq!(s.take_remaining(), "end");
    assert_eq!(s.take_remaining(), "");
}
