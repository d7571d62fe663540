use load_balance::text::visible_ascii_text;

#[test]
fn visible_ascii_reads_as_text() {
    assert_eq!(visible_ascii_text(b"hello world"), Some("hello world"));
    assert_eq!(visible_ascii_text(b""), Some(""));
    assert_eq!(visible_ascii_text(b"a\tb"), Some("a\tb"));
    assert_eq!(visible_ascii_text(b"~"), Some("~"));
}

#[test]
fn other_bytes_do_not_read_as_text() {
    assert_eq!(visible_ascii_text(b"line\n"), None);
    assert_eq!(visible_ascii_text(&[0x7f]), None);
    assert_eq!(visible_ascii_text("caf\u{e9}".as_bytes()), None);
    assert_eq!(visible_ascii_text(&[0x1f]), None);
}
