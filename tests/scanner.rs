use ingest::scanner::Scanner;

#[test]
fn fill_reports_end_of_stream() {
    let mut s = Scanner::new(8);
    assert_eq!(0, s.available());
    assert!(!s.fill_and_check_eof(b"abc"));
    assert_eq!(3, s.available());
    let mut t = Scanner::new(8);
    assert!(t.fill_and_check_eof(b""));
    assert_eq!(0, t.available());
}

#[test]
fn consume_until_skips_past_marker() {
    let mut s = Scanner::new(32);
    s.fill_and_check_eof(b"Host: x\r\nContent-Length: 5");
    assert!(s.consume_until(b"content-length:"));
    assert_eq!(2, s.available());
}

#[test]
fn consume_until_discards_window_without_marker() {
    let mut s = Scanner::new(32);
    s.fill_and_check_eof(b"Host: x\r\n");
    assert!(!s.consume_until(b"content-length:"));
    assert_eq!(0, s.available());
}

#[test]
fn read_until_keeps_marker() {
    let mut s = Scanner::new(32);
    s.fill_and_check_eof(b" 17\r\nrest");
    assert_eq!(Some(b" 17".to_vec()), s.read_until(b"\r\n"));
    assert_eq!(6, s.available());
    assert!(s.consume_until(b"\r\n"));
    assert_eq!(4, s.available());
}

#[test]
fn read_until_without_marker_is_none() {
    let mut s = Scanner::new(32);
    s.fill_and_check_eof(b" 17");
    assert_eq!(None, s.read_until(b"\r\n"));
    assert_eq!(0, s.available());
}

#[test]
fn read_n_bytes_moves_at_most_the_window() {
    let mut s = Scanner::new(16);
    s.fill_and_check_eof(b"hello world");
    let mut sink = b">".to_vec();
    assert_eq!(5, s.read_n_bytes_into(5, &mut sink));
    assert_eq!(b">hello".to_vec(), sink);
    assert_eq!(6, s.available());
    assert_eq!(6, s.read_n_bytes_into(100, &mut sink));
    assert_eq!(b">hello world".to_vec(), sink);
    assert_eq!(0, s.available());
    assert_eq!(0, s.read_n_bytes_into(3, &mut sink));
}
