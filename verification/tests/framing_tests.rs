use oxid::framing::{encode_frame, extract_frames, parse_content_length};

#[test]
fn encode_frame_exact_bytes() {
    let body = b"{\"id\":1}".to_vec();
    let framed = encode_frame(&body);
    assert_eq!(framed, b"Content-Length: 8\r\n\r\n{\"id\":1}".to_vec());
    let empty = encode_frame(&Vec::new());
    assert_eq!(empty, b"Content-Length: 0\r\n\r\n".to_vec());
}

#[test]
fn content_length_header_parsing() {
    assert_eq!(
        parse_content_length(&b"Content-Length: 42\r\n".to_vec()),
        Some(42)
    );
    assert_eq!(
        parse_content_length(&b"Content-Length:  7 \r\n".to_vec()),
        Some(7)
    );
    assert_eq!(parse_content_length(&b"Content-Length: \r\n".to_vec()), None);
    assert_eq!(
        parse_content_length(&b"Content-Length: 12a\r\n".to_vec()),
        None
    );
    assert_eq!(parse_content_length(&b"Content-Type: 5\r\n".to_vec()), None);
    assert_eq!(parse_content_length(&b"hello\r\n".to_vec()), None);
    // A length past the machine's range is no valid header.
    assert_eq!(
        parse_content_length(&b"Content-Length: 99999999999999999999999999\r\n".to_vec()),
        None
    );
}

#[test]
fn extract_single_frame() {
    let stream = b"Content-Length: 5\r\n\r\nhello".to_vec();
    let frames = extract_frames(&stream);
    assert_eq!(frames, vec![b"hello".to_vec()]);
}

#[test]
fn extract_skips_malformed_line_then_delivers() {
    // A junk line before a valid frame must not cost the frame.
    let stream = b"this is noise\r\nContent-Length: 4\r\n\r\nbody".to_vec();
    let frames = extract_frames(&stream);
    assert_eq!(frames, vec![b"body".to_vec()]);
}

#[test]
fn extract_multiple_frames_in_order() {
    let mut stream = encode_frame(&b"one".to_vec());
    stream.extend(encode_frame(&b"two".to_vec()));
    stream.extend(b"garbage line\n".to_vec());
    stream.extend(encode_frame(&b"three".to_vec()));
    let frames = extract_frames(&stream);
    assert_eq!(
        frames,
        vec![b"one".to_vec(), b"two".to_vec(), b"three".to_vec()]
    );
}

#[test]
fn extract_stops_at_truncated_body() {
    // The stream ends inside the announced body: the reader stops without
    // delivering it, and without panicking.
    let stream = b"Content-Length: 10\r\n\r\nshort".to_vec();
    let frames = extract_frames(&stream);
    assert!(frames.is_empty());
    // Frames before the truncation still arrive.
    let mut stream2 = encode_frame(&b"ok".to_vec());
    stream2.extend(b"Content-Length: 99\r\n\r\nnope".to_vec());
    let frames2 = extract_frames(&stream2);
    assert_eq!(frames2, vec![b"ok".to_vec()]);
}

#[test]
fn extract_handles_empty_and_headerless_input() {
    assert!(extract_frames(&Vec::new()).is_empty());
    assert!(extract_frames(&b"no headers here\njust text\n".to_vec()).is_empty());
}
