use pty_sessions::pump::{classify_chunk, PumpEvent};

#[test]
fn classify_decodes_text_chunk() {
    match classify_chunk(Ok(b"ready\r\n".to_vec())) {
        PumpEvent::Output(s) => assert_eq!(s, "ready\r\n"),
        PumpEvent::Closed => panic!("expected an output event"),
    }
}

#[test]
fn classify_substitutes_invalid_utf8() {
    match classify_chunk(Ok(vec![0xff, b'a'])) {
        PumpEvent::Output(s) => assert_eq!(s, "\u{FFFD}a"),
        PumpEvent::Closed => panic!("expected an output event"),
    }
}

#[test]
fn classify_empty_chunk_closes() {
    assert!(matches!(classify_chunk(Ok(Vec::new())), PumpEvent::Closed));
}

#[test]
fn classify_read_error_closes() {
    assert!(matches!(
        classify_chunk(Err("gone".to_string())),
        PumpEvent::Closed
    ));
}
