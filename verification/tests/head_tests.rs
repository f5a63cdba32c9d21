use rwf::http::head::Head;
use rwf::http::head::HeadError;
use rwf::http::head::LineScanner;
use rwf::http::head::Version;

fn scan_lines(bytes: &[u8]) -> Vec<Vec<u8>> {
    let mut lines: Vec<Vec<u8>> = Vec::new();
    let mut scanner = LineScanner::new();
    for b in bytes {
        if scanner.push_byte(*b) {
            lines.push(scanner.buf);
            scanner = LineScanner::new();
        }
    }
    lines
}

#[test]
fn test_read_line() {
    let line = b"Content-Type: application/json\r\n";
    let mut scanner = LineScanner::new();
    let mut fed: usize = 0;
    for b in &line[..] {
        fed += 1;
        if scanner.push_byte(*b) {
            break;
        }
    }
    assert_eq!(fed, line.len());
    assert_eq!(scanner.take_line(), "Content-Type: application/json");
}

#[test]
fn test_parse_header() {
    let body = ("GET / HTTP/1.1\r\n".to_owned()
        + "Content-Type: application/json\r\n"
        + "Accept: */*\r\n"
        + "Content-Length: 4\r\n"
        + "\r\n"
        + "hello")
        .as_bytes()
        .to_vec();
    let mut lines = scan_lines(&body);
    assert_eq!(lines.len(), 5);
    assert!(lines[4].is_empty());
    lines.truncate(4);
    let request_line = lines.remove(0);
    let head = Head::from_lines(&request_line, &lines).expect("head");
    assert!(head.http1());
    assert!(!head.http2());
    assert_eq!(head.method(), "GET");
    assert_eq!(head.path(), "/");
    assert_eq!(head.content_length(), Some(4));
}

#[test]
fn test_missing_request_line_fields() {
    let r = Head::from_lines(&b"GET".to_vec(), &Vec::new());
    assert!(matches!(r, Err(HeadError::MissingPath)));
    let r = Head::from_lines(&b"GET /".to_vec(), &Vec::new());
    assert!(matches!(r, Err(HeadError::MissingVersion)));
}

#[test]
fn test_header_without_separator() {
    let r = Head::from_lines(&b"GET / HTTP/1.1".to_vec(), &vec![b"oops".to_vec()]);
    assert!(matches!(r, Err(HeadError::MissingHeaderValue)));
}

#[test]
fn test_content_length_parsing() {
    let parse = |v: &[u8]| {
        let mut line = b"Content-Length:".to_vec();
        line.extend_from_slice(v);
        Head::from_lines(&b"GET / HTTP/1.1".to_vec(), &vec![line])
            .expect("head")
            .content_length()
    };
    assert_eq!(parse(b" 18"), Some(18));
    assert_eq!(parse(b" +7"), Some(7));
    assert_eq!(parse(b" nope"), None);
    assert_eq!(parse(b" 99999999999999999999999999"), None);
    assert_eq!(parse(b" "), None);
}

#[test]
fn test_header_lookup_last_wins() {
    let head = Head::from_lines(
        &b"GET / HTTP/1.1".to_vec(),
        &vec![b"Content-Length: 4".to_vec(), b"content-length: 9".to_vec()],
    )
    .expect("head");
    assert_eq!(head.content_length(), Some(9));
}

#[test]
fn test_version_markers() {
    assert_ne!(Version::Http1, Version::Http2);
    assert_ne!(Version::Http1, Version::Unknown);
    let head = Head::from_lines(&b"GET / HTTP/2".to_vec(), &Vec::new()).expect("head");
    assert!(head.http2());
    assert!(!head.http1());
}
