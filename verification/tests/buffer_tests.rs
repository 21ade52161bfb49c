use yapper::buffer::{LineEnding, ScrollbackBuffer};
use yapper::mouse::entry_copy_text;

#[test]
fn received_bytes_become_lines() {
    let mut buf = ScrollbackBuffer::new(100);
    buf.push_bytes(b"BOOT\r\nREA", 5);
    assert_eq!(buf.len(), 1);
    assert_eq!(buf.display_len(), 2);
    assert_eq!(buf.partial_line().as_deref(), Some("REA"));
    buf.push_bytes(b"DY\n", 9);
    let first = buf.get(0).unwrap();
    assert_eq!(first.text, "BOOT");
    assert_eq!(first.line_ending, LineEnding::CrLf);
    assert_eq!(first.raw_bytes, b"BOOT\r\n".to_vec());
    assert_eq!(first.timestamp_ms, 5);
    let second = buf.get(1).unwrap();
    assert_eq!(second.text, "READY");
    assert_eq!(second.line_ending, LineEnding::Lf);
    assert_eq!(second.timestamp_ms, 9);
    assert!(buf.partial_line().is_none());
    assert!(buf.get(2).is_none());
}

#[test]
fn sent_lines_and_the_limit() {
    let mut buf = ScrollbackBuffer::new(2);
    buf.push_sent_line("AT".to_string(), 1);
    buf.push_bytes(b"OK\n", 2);
    buf.push_bytes(b"again\n", 3);
    assert_eq!(buf.len(), 2);
    assert_eq!(buf.texts(), vec!["OK".to_string(), "again".to_string()]);
    assert!(!buf.get(0).unwrap().is_sent);
    buf.clear();
    assert_eq!(buf.display_len(), 0);
    assert_eq!(buf.max_lines(), 2);
    let mut sent = ScrollbackBuffer::new(5);
    sent.push_sent_line("AT".to_string(), 1);
    let e = sent.get(0).unwrap();
    assert!(e.is_sent);
    assert_eq!(e.line_ending, LineEnding::NoEnding);
    assert_eq!(LineEnding::CrLf.display(), "\\r\\n");
}

#[test]
fn invalid_utf8_is_replaced() {
    let mut buf = ScrollbackBuffer::new(10);
    buf.push_bytes(&[0x66, 0xff, 0x6f, b'\n'], 0);
    assert_eq!(buf.get(0).unwrap().text, "f\u{fffd}o");
}

#[test]
fn copied_lines_match_the_view() {
    assert_eq!(entry_copy_text(None, "OK", LineEnding::CrLf, false, false), "OK");
    assert_eq!(entry_copy_text(None, "OK", LineEnding::CrLf, false, true), "OK \\r\\n");
    assert_eq!(entry_copy_text(Some("12:00:01"), "AT", LineEnding::NoEnding, true, true), "[12:00:01] ❯ AT");
    assert_eq!(entry_copy_text(Some("t"), "x", LineEnding::Lf, true, true), "[t] ❯ x \\n");
}
