use rust_debug::debug_adapter::{get_content_len as adapter_content_len, send_data};
use rust_debug::server::get_content_len;

#[test]
fn content_length_header() {
    assert_eq!(get_content_len("Content-Length: 119\r\n"), Some(119));
    assert_eq!(get_content_len("Content-Length:   7  \n"), Some(7));
    assert_eq!(adapter_content_len("Content-Length: 0"), Some(0));
}

#[test]
fn content_length_header_errors() {
    assert_eq!(get_content_len("Content-Length:\r\n"), None);
    assert_eq!(get_content_len(""), None);
    assert_eq!(get_content_len("Content-Length: ten"), None);
    assert_eq!(get_content_len("Content-Length: -1"), None);
}

#[test]
fn framing_adds_header_and_counts_sequence() {
    let mut out = b"old".to_vec();
    let next = send_data(&mut out, b"{\"seq\":1}", 41);
    assert_eq!(next, 42);
    assert_eq!(out, b"oldContent-Length: 9\r\n\r\n{\"seq\":1}".to_vec());
}

#[test]
fn framing_an_empty_body() {
    let mut out = Vec::new();
    assert_eq!(send_data(&mut out, b"", 0), 1);
    assert_eq!(out, b"Content-Length: 0\r\n\r\n".to_vec());
}
