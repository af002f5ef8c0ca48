use ingest::handler::{Action, Ingest, IngestError, Phase, SUCCESS_RESPONSE};

/// Drives one request through reads that yield `reads` in turn, then
/// end-of-stream. Returns the sink's contents, or the error.
fn drive(capacity: usize, reads: &[&[u8]]) -> Result<Vec<u8>, IngestError> {
    let mut machine = Ingest::new(capacity);
    let mut next = 0;
    let mut sink = Vec::new();
    loop {
        match machine.step() {
            Action::Read => {
                let chunk: &[u8] = if next < reads.len() { reads[next] } else { b"" };
                next += 1;
                assert!(chunk.len() <= capacity);
                machine.supply(chunk);
            }
            Action::Proceed => {}
            Action::Write(bytes) => sink.extend_from_slice(&bytes),
            Action::Respond => {
                assert_eq!(Phase::Done, machine.phase());
                return Ok(sink);
            }
            Action::Fail(e) => return Err(e),
        }
    }
}

/// Splits `data` into reads of at most `size` bytes.
fn split(data: &[u8], size: usize) -> Vec<&[u8]> {
    data.chunks(size).collect()
}

const REQUEST: &[u8] = b"POST / HTTP/1.1\r\nHost: x\r\nContent-Length: 5\r\n\r\nhello";

#[test]
fn concrete_request_in_two_reads() {
    assert_eq!("HTTP/1.1 204 No Content\r\n\r\n", SUCCESS_RESPONSE);
    let head_end = REQUEST.len() - 5;
    for cut in head_end..=REQUEST.len() {
        let (a, b) = REQUEST.split_at(cut);
        let result = drive(64 * 1024, &[a, b]);
        assert_eq!(Ok(b"hello".to_vec()), result);
    }
}

#[test]
fn concrete_request_split_outside_markers() {
    // "Content-Length:" spans [26, 41), the value " 5" [41, 43), "\r\n\r\n" [43, 47).
    let good_cuts = (1..=26).chain(41..=42).chain(47..=REQUEST.len());
    for cut in good_cuts {
        let (a, b) = REQUEST.split_at(cut);
        assert_eq!(Ok(b"hello".to_vec()), drive(64 * 1024, &[a, b]), "cut at {}", cut);
    }
}

#[test]
fn concrete_request_split_inside_a_marker_fails() {
    for cut in 27..=40 {
        let (a, b) = REQUEST.split_at(cut);
        assert_eq!(Err(IngestError::MarkerNotFound), drive(64 * 1024, &[a, b]));
    }
    for cut in 43..=44 {
        let (a, b) = REQUEST.split_at(cut);
        assert_eq!(Err(IngestError::InvalidContentLength), drive(64 * 1024, &[a, b]));
    }
    for cut in 45..=46 {
        let (a, b) = REQUEST.split_at(cut);
        assert_eq!(Err(IngestError::MarkerNotFound), drive(64 * 1024, &[a, b]));
    }
}

#[test]
fn concrete_request_in_one_read() {
    assert_eq!(Ok(b"hello".to_vec()), drive(64 * 1024, &[REQUEST]));
}

#[test]
fn body_round_trips_over_any_chunking() {
    let payload: Vec<u8> = (0..1000u32).map(|i| (i * 7 % 251) as u8).collect();
    let head = format!("PUT /x HTTP/1.1\r\ncontent-length: {}\r\nX-A: b\r\n\r\n", payload.len());
    for size in [1usize, 2, 3, 7, 64, 999, 1000] {
        let mut reads: Vec<&[u8]> = vec![head.as_bytes()];
        reads.extend(split(&payload, size));
        assert_eq!(Ok(payload.clone()), drive(1024, &reads));
    }
}

#[test]
fn body_bytes_beyond_the_declared_length_are_left() {
    let request = b"POST / HTTP/1.1\r\nContent-Length: 3\r\n\r\nabcdef";
    assert_eq!(Ok(b"abc".to_vec()), drive(1024, &[request]));
}

#[test]
fn header_spelling_does_not_matter() {
    for name in ["Content-Length:", "CONTENT-LENGTH:", "content-length:", "cOnTeNt-LeNgTh:"] {
        let request = format!("POST / HTTP/1.1\r\nHost: x\r\n{} 5\r\n\r\nhello", name);
        assert_eq!(Ok(b"hello".to_vec()), drive(1024, &[request.as_bytes()]));
    }
}

#[test]
fn zero_length_body_succeeds_empty() {
    let request = b"POST / HTTP/1.1\r\ncontent-length: 0\r\n\r\n";
    assert_eq!(Ok(Vec::new()), drive(1024, &[request]));
}

#[test]
fn zero_length_body_needs_no_further_read() {
    let request = b"POST / HTTP/1.1\r\ncontent-length: 0\r\n\r\n";
    let mut machine = Ingest::new(1024);
    assert!(matches!(machine.step(), Action::Read));
    machine.supply(request);
    loop {
        match machine.step() {
            Action::Proceed => {}
            Action::Respond => break,
            other => panic!("unexpected action {:?}", other),
        }
    }
    assert_eq!(0, machine.content_length());
    assert_eq!(0, machine.remaining());
}

#[test]
fn separator_at_the_end_of_a_fill_is_found() {
    let head = b"POST / HTTP/1.1\r\nContent-Length: 5\r\n\r\n";
    let mut request = head.to_vec();
    request.extend_from_slice(b"hello");
    let reads = split(&request, head.len());
    assert_eq!(2, reads.len());
    assert!(reads[0].ends_with(b"\r\n\r\n"));
    assert_eq!(Ok(b"hello".to_vec()), drive(head.len(), &reads));
}

#[test]
fn separator_split_across_fills_is_not_found() {
    let head = b"POST / HTTP/1.1\r\nContent-Length: 5\r\n\r\n";
    let mut request = head.to_vec();
    request.extend_from_slice(b"hello");
    let cut = head.len() - 1;
    let (a, b) = request.split_at(cut);
    assert_eq!(Err(IngestError::MarkerNotFound), drive(1024, &[a, b]));
}

#[test]
fn missing_header_fails() {
    let request = b"POST / HTTP/1.1\r\nHost: x\r\n\r\nhello";
    assert_eq!(Err(IngestError::MarkerNotFound), drive(1024, &[request]));
    assert_eq!(Err(IngestError::MarkerNotFound), drive(8, &split(request, 8)));
    assert_eq!(Err(IngestError::MarkerNotFound), drive(8, &[]));
}

#[test]
fn missing_separator_fails() {
    let request = b"POST / HTTP/1.1\r\nContent-Length: 5\r\nhello";
    assert_eq!(Err(IngestError::MarkerNotFound), drive(1024, &[request]));
}

#[test]
fn missing_line_end_after_value_fails() {
    let request = b"POST / HTTP/1.1\r\nContent-Length: 5";
    assert_eq!(Err(IngestError::MarkerNotFound), drive(1024, &[request]));
}

#[test]
fn truncated_body_fails() {
    let mut request = b"POST / HTTP/1.1\r\nContent-Length: 100\r\n\r\n".to_vec();
    request.extend_from_slice(&[b'z'; 50]);
    assert_eq!(Err(IngestError::TruncatedBody), drive(1024, &[&request]));
    assert_eq!(Err(IngestError::TruncatedBody), drive(16, &split(&request, 16)));
}

#[test]
fn invalid_length_fails() {
    for value in ["abc", "-5", "", "1.5", "99999999999999999999999999"] {
        let request = format!("POST / HTTP/1.1\r\nContent-Length: {}\r\n\r\nhello", value);
        assert_eq!(
            Err(IngestError::InvalidContentLength),
            drive(1024, &[request.as_bytes()])
        );
    }
}

#[test]
fn failure_is_terminal() {
    let mut machine = Ingest::new(16);
    assert!(matches!(machine.step(), Action::Read));
    machine.supply(b"");
    assert_eq!(Phase::Failed(IngestError::MarkerNotFound), machine.phase());
    assert!(matches!(machine.step(), Action::Fail(IngestError::MarkerNotFound)));
    assert!(matches!(machine.step(), Action::Fail(IngestError::MarkerNotFound)));
}
