use ptymux::buffer::{OutputBuffer, MAX_LINES};
use ptymux::lines::{split_text, LineAssembler};

#[test]
fn assembler_keeps_partial_line_until_newline() {
    let mut a = LineAssembler::new();
    let first = a.feed(b"hel");
    assert!(first.is_empty());
    assert!(a.has_pending());
    let second = a.feed(b"lo\r\nwor");
    assert_eq!(second, vec!["hello".to_string()]);
    let third = a.feed(b"ld\n\n");
    assert_eq!(third, vec!["world".to_string(), String::new()]);
    assert!(!a.has_pending());
    assert_eq!(a.finish(), None);
}

#[test]
fn assembler_finish_returns_rest() {
    let mut a = LineAssembler::new();
    assert!(a.feed(b"tail").is_empty());
    assert_eq!(a.finish(), Some("tail".to_string()));
}

#[test]
fn invalid_utf8_is_replaced() {
    let lines = split_text(&[b'a', 0xff, b'b', b'\n']);
    assert_eq!(lines, vec!["a\u{FFFD}b".to_string()]);
}

#[test]
fn split_text_like_str_lines() {
    assert_eq!(split_text(b""), Vec::<String>::new());
    assert_eq!(split_text(b"a\nb"), vec!["a".to_string(), "b".to_string()]);
    assert_eq!(split_text(b"a\n"), vec!["a".to_string()]);
    assert_eq!(split_text(b"a\r\n\nb\n"), vec!["a".to_string(), String::new(), "b".to_string()]);
}

#[test]
fn buffer_keeps_last_hundred_of_150() {
    let mut buf = OutputBuffer::new();
    assert_eq!(buf.capacity(), MAX_LINES);
    for i in 0..150 {
        buf.push_line(format!("line {}", i));
        assert!(buf.len() <= 100);
    }
    let expected: Vec<String> = (50..150).map(|i| format!("line {}", i)).collect();
    assert_eq!(buf.lines(), &expected);
}

#[test]
fn buffer_evicts_oldest_when_full() {
    let mut buf = OutputBuffer::with_capacity(2);
    buf.push_line("a".to_string());
    buf.push_line("b".to_string());
    assert_eq!(buf.lines(), &vec!["a".to_string(), "b".to_string()]);
    buf.push_line("c".to_string());
    assert_eq!(buf.lines(), &vec!["b".to_string(), "c".to_string()]);
    buf.push_lines(vec!["d".to_string(), "e".to_string(), "f".to_string()]);
    assert_eq!(buf.lines(), &vec!["e".to_string(), "f".to_string()]);
    buf.clear();
    assert_eq!(buf.len(), 0);
}

#[test]
fn buffer_below_cap_keeps_everything() {
    let mut buf = OutputBuffer::new();
    buf.push_lines(vec!["x".to_string(), "y".to_string()]);
    assert_eq!(buf.lines(), &vec!["x".to_string(), "y".to_string()]);
}
