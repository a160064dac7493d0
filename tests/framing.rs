use taskserver::framing::{frame, Framing};

#[test]
fn framing_waits_for_the_blank_line() {
    assert_eq!(frame(&b"GET /tasks HTTP/1.1\r\n".to_vec(), 100, false), Framing::NeedMore);
    assert_eq!(frame(&Vec::new(), 100, true), Framing::Truncated);
    assert_eq!(frame(&b"GET /".to_vec(), 100, true), Framing::Complete(5));
}

#[test]
fn framing_without_length_takes_what_arrived() {
    let r = b"POST /users HTTP/1.1\r\n\r\n{\"a\":1}".to_vec();
    assert_eq!(frame(&r, 100, false), Framing::Complete(r.len()));
}

#[test]
fn framing_reads_the_declared_length() {
    let r = b"POST /t HTTP/1.1\r\nContent-Length: 4\r\n\r\nab".to_vec();
    assert_eq!(frame(&r, 100, false), Framing::NeedMore);
    assert_eq!(frame(&r, 100, true), Framing::Truncated);
    let r = b"POST /t HTTP/1.1\r\nContent-Length: 4\r\n\r\nabcdGET".to_vec();
    assert_eq!(frame(&r, 100, false), Framing::Complete(r.len() - 3));
}

#[test]
fn framing_rejects_what_is_too_large_or_malformed() {
    let r = b"POST /t HTTP/1.1\r\nContent-Length: 90\r\n\r\n".to_vec();
    assert_eq!(frame(&r, 100, false), Framing::TooLarge);
    assert_eq!(frame(&vec![b'a'; 101], 100, false), Framing::TooLarge);
    let r = b"POST /t HTTP/1.1\r\nContent-Length: x\r\n\r\n".to_vec();
    assert_eq!(frame(&r, 100, false), Framing::Malformed);
    let r = b"POST /t HTTP/1.1\r\nX: \xff\r\n\r\n".to_vec();
    assert_eq!(frame(&r, 100, false), Framing::Malformed);
}
