use std::sync::Arc;

use imapidle::lines::LineBuffer;
use imapidle::protocol::ImapState;
use imapidle::pump::PumpPhase;
use imapidle::tls::{current_phase, on_records};
use rustls::{ClientConfig, ClientConnection, RootCertStore};

fn fresh_client() -> ClientConnection {
    let config = ClientConfig::builder()
        .with_safe_defaults()
        .with_root_certificates(RootCertStore::empty())
        .with_no_client_auth();
    ClientConnection::new(Arc::new(config), "imap.example.com".try_into().unwrap()).unwrap()
}

#[test]
fn fresh_session_is_handshaking() {
    let client = fresh_client();
    assert_eq!(current_phase(&client), PumpPhase::Handshake);
}

#[test]
fn no_records_yield_no_plaintext() {
    let mut client = fresh_client();
    let mut buf = LineBuffer::new();
    assert!(buf.feed(b"* 1 EX").is_empty());
    let r = on_records(&mut client, &mut buf, ImapState::Idling, b"u", b"p");
    assert!(matches!(r, Ok(None)));
    assert_eq!(buf.feed(b"ISTS\r\n"), vec![b"* 1 EXISTS".to_vec()]);
}
