use serial_term::{Action, DecodeError, Eol, Event, Forwarder, LoopError};

fn written(a: &Action) -> Vec<u8> {
    match a {
        Action::Write(b) => b.to_vec(),
        _ => panic!("expected a write"),
    }
}

#[test]
fn lines_are_written_one_at_a_time() {
    let mut f = Forwarder::new(Eol::Crlf);
    let a = f.step(Event::Received(b"a\nb\r\npart".to_vec()));
    assert_eq!(written(&a), b"a\r\n");
    let a = f.step(Event::Written);
    assert_eq!(written(&a), b"b\r\n");
    let a = f.step(Event::Written);
    assert!(matches!(a, Action::Read));
    let a = f.step(Event::Received(b"ial\n".to_vec()));
    assert_eq!(written(&a), b"partial\r\n");
}

#[test]
fn partial_chunk_gives_one_line() {
    let mut f = Forwarder::new(Eol::Lf);
    let a = f.step(Event::Received(b"ab".to_vec()));
    assert!(matches!(a, Action::Read));
    let a = f.step(Event::Received(b"c\n".to_vec()));
    assert_eq!(written(&a), b"abc\n");
    let a = f.step(Event::Written);
    assert!(matches!(a, Action::Read));
}

#[test]
fn no_read_while_a_write_is_outstanding() {
    let mut f = Forwarder::new(Eol::Cr);
    assert!(f.accepts(&Event::Received(b"x".to_vec())));
    let a = f.step(Event::Received(b"x\ny\n".to_vec()));
    assert_eq!(written(&a), b"x\r");
    assert!(!f.accepts(&Event::Received(b"z".to_vec())));
    assert!(!f.accepts(&Event::Closed));
    assert!(!f.accepts(&Event::ReadFailed));
    assert!(f.accepts(&Event::Written));
    assert!(f.accepts(&Event::WriteFailed));
    let a = f.step(Event::Written);
    assert_eq!(written(&a), b"y\r");
    let a = f.step(Event::Written);
    assert!(matches!(a, Action::Read));
    assert!(!f.accepts(&Event::Written));
}

#[test]
fn end_of_source_drops_partial_line() {
    let mut f = Forwarder::new(Eol::Lf);
    let a = f.step(Event::Received(b"unterminated".to_vec()));
    assert!(matches!(a, Action::Read));
    let a = f.step(Event::Closed);
    assert!(matches!(a, Action::Finish(Ok(()))));
    assert!(!f.accepts(&Event::Received(b"more".to_vec())));
}

#[test]
fn read_failure_ends_the_loop() {
    let mut f = Forwarder::new(Eol::Lf);
    let a = f.step(Event::ReadFailed);
    assert!(matches!(a, Action::Finish(Err(LoopError::Read))));
}

#[test]
fn write_failure_ends_the_loop() {
    let mut f = Forwarder::new(Eol::Lf);
    let _ = f.step(Event::Received(b"a\n".to_vec()));
    let a = f.step(Event::WriteFailed);
    assert!(matches!(a, Action::Finish(Err(LoopError::Write))));
}

#[test]
fn invalid_text_ends_the_loop() {
    let mut f = Forwarder::new(Eol::Lf);
    let a = f.step(Event::Received(b"\xc3\x28\n".to_vec()));
    assert!(matches!(
        a,
        Action::Finish(Err(LoopError::Decode(DecodeError::InvalidText)))
    ));
}

#[test]
fn empty_line_is_forwarded() {
    let mut f = Forwarder::new(Eol::Crlf);
    let a = f.step(Event::Received(b"\n".to_vec()));
    assert_eq!(written(&a), b"\r\n");
}
