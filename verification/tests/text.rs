use ftp_server::line::find_crlf;
use ftp_server::text::{decimal, read_text, reads, show_text, signed_decimal, text_bytes};

#[test]
fn numbers_are_written_in_decimal() {
    assert_eq!(decimal(0), "0");
    assert_eq!(decimal(9), "9");
    assert_eq!(decimal(10), "10");
    assert_eq!(decimal(1234567890), "1234567890");
    assert_eq!(decimal(u64::MAX), "18446744073709551615");
    assert_eq!(signed_decimal(0), "0");
    assert_eq!(signed_decimal(-7), "-7");
    assert_eq!(signed_decimal(31), "31");
    assert_eq!(signed_decimal(i32::MIN), "-2147483648");
}

#[test]
fn text_is_read_from_utf8() {
    assert_eq!(read_text(&b"h\xc3\xa9".to_vec()).as_deref(), Some("h\u{e9}"));
    assert_eq!(read_text(&b"\xff".to_vec()), None);
    assert_eq!(read_text(&vec![]).as_deref(), Some(""));
    assert_eq!(text_bytes(&"h\u{e9}".to_string()), b"h\xc3\xa9".to_vec());
}

#[test]
fn text_is_shown_whatever_it_holds() {
    assert_eq!(show_text(&b"plain".to_vec()), "plain");
    assert_eq!(show_text(&b"a\xffb".to_vec()), "a\u{fffd}b");
}

#[test]
fn texts_are_compared_whole() {
    assert!(reads(&"USER".to_string(), "USER"));
    assert!(!reads(&"USER".to_string(), "USE"));
    assert!(!reads(&"USER".to_string(), "user"));
}

#[test]
fn find_crlf_finds_the_first_end() {
    assert_eq!(find_crlf(b"QUIT\r\n"), Some(4));
    assert_eq!(find_crlf(b"\r\n"), Some(0));
    assert_eq!(find_crlf(b"a\r\nb\r\n"), Some(1));
    assert_eq!(find_crlf(b"a\r\r\n"), Some(2));
    assert_eq!(find_crlf(b"a\rb\n"), None);
    assert_eq!(find_crlf(b"\r"), None);
    assert_eq!(find_crlf(b""), None);
}
