use imapidle::lines::LineBuffer;
use imapidle::protocol::{handle_buffered, Effect, ImapState, ProtocolError};

#[test]
fn line_split_across_chunks_is_kept_whole() {
    let mut buf = LineBuffer::new();
    assert!(buf.feed(b"* 1 EXI").is_empty());
    assert_eq!(buf.feed(b"STS\r\n+ id"), vec![b"* 1 EXISTS".to_vec()]);
    assert_eq!(buf.feed(b"ling\r\n"), vec![b"+ idling".to_vec()]);
    assert!(buf.feed(b"\r\n\n").is_empty());
}

#[test]
fn buffered_new_mail_across_chunks() {
    let mut buf = LineBuffer::new();
    let first = handle_buffered(ImapState::Idling, &mut buf, b"\r\n* 7 EXI");
    assert!(first.lines.is_empty());
    assert!(first.outcome.effects.is_empty());
    let second = handle_buffered(first.outcome.state, &mut buf, b"STS\r\n");
    assert_eq!(second.lines, vec![b"* 7 EXISTS".to_vec()]);
    assert_eq!(second.outcome.effects, vec![Effect::NewMail]);
    assert_eq!(second.outcome.error, None);
}

#[test]
fn buffered_exchange_to_rejection() {
    let mut buf = LineBuffer::new();
    let a = handle_buffered(ImapState::Unauthenticated, &mut buf, b"* OK ready\r\nA0");
    assert_eq!(a.outcome.effects, vec![Effect::SendLogin]);
    assert_eq!(a.outcome.state, ImapState::Authenticated);
    let b = handle_buffered(a.outcome.state, &mut buf, b"01 NO denied\r\n");
    assert_eq!(b.outcome.error, Some(ProtocolError::AuthenticationRejected));
    assert!(b.outcome.effects.is_empty());
}
