use imapidle::lines::split_lines;
use imapidle::protocol::{
    command_bytes, handle_chunk, handle_line, idle_command, login_command, select_command, Effect, ImapState,
    ProtocolError,
};

fn run(lines: &[&[u8]]) -> (ImapState, Vec<Effect>, Option<ProtocolError>) {
    let v: Vec<Vec<u8>> = lines.iter().map(|l| l.to_vec()).collect();
    let out = imapidle::protocol::handle_lines(ImapState::Unauthenticated, &v);
    (out.state, out.effects, out.error)
}

#[test]
fn greeting_sends_login() {
    assert_eq!(
        handle_line(ImapState::Unauthenticated, b"* OK greeting"),
        Ok((ImapState::Authenticated, Effect::SendLogin))
    );
}

#[test]
fn other_lines_ignored_before_greeting() {
    assert_eq!(
        handle_line(ImapState::Unauthenticated, b"* BYE"),
        Ok((ImapState::Unauthenticated, Effect::Nothing))
    );
}

#[test]
fn login_ok_sends_select() {
    assert_eq!(
        handle_line(ImapState::Authenticated, b"A001 OK done"),
        Ok((ImapState::Inbox, Effect::SendSelect))
    );
}

#[test]
fn login_failure_is_fatal() {
    assert_eq!(
        handle_line(ImapState::Authenticated, b"A001 NO bad credentials"),
        Err(ProtocolError::AuthenticationRejected)
    );
}

#[test]
fn login_failure_ends_chunk_whatever_follows() {
    let out = handle_chunk(
        ImapState::Authenticated,
        b"* CAPABILITY IMAP4rev1\r\nA001 BAD oops\r\nA001 OK done\r\n* 1 EXISTS\r\n",
    );
    assert_eq!(out.error, Some(ProtocolError::AuthenticationRejected));
    assert_eq!(out.state, ImapState::Authenticated);
    assert_eq!(out.effects, vec![Effect::Nothing]);
}

#[test]
fn select_failure_is_fatal() {
    assert_eq!(
        handle_line(ImapState::Inbox, b"A002 NO no such mailbox"),
        Err(ProtocolError::SelectRejected)
    );
    let out = handle_chunk(ImapState::Inbox, b"A002 NO nope\r\nA002 OK done\r\n");
    assert_eq!(out.error, Some(ProtocolError::SelectRejected));
    assert!(out.effects.is_empty());
}

#[test]
fn select_ok_starts_idle() {
    assert_eq!(
        handle_line(ImapState::Inbox, b"A002 OK done"),
        Ok((ImapState::Idling, Effect::StartIdle))
    );
}

#[test]
fn idling_lines() {
    assert_eq!(
        handle_line(ImapState::Idling, b"+ idling"),
        Ok((ImapState::Idling, Effect::IdleConfirmed))
    );
    assert_eq!(
        handle_line(ImapState::Idling, b"* 3 EXISTS"),
        Ok((ImapState::Idling, Effect::NewMail))
    );
    assert_eq!(
        handle_line(ImapState::Idling, b"* 3 RECENT"),
        Ok((ImapState::Idling, Effect::Nothing))
    );
    assert_eq!(
        handle_line(ImapState::Idling, b"A003 EXISTS"),
        Ok((ImapState::Idling, Effect::Nothing))
    );
}

#[test]
fn end_to_end_exchange() {
    let user = b"alice";
    let pass = b"s3cret";
    let login = login_command(user, pass);
    assert_eq!(login, b"A001 login alice s3cret\r\n".to_vec());
    assert_eq!(select_command(), b"A002 select inbox\r\n".to_vec());
    assert_eq!(idle_command(), b"A003 idle\r\n".to_vec());

    let (state, effects, error) = run(&[b"* OK greeting"]);
    assert_eq!((state, error), (ImapState::Authenticated, None));
    assert_eq!(effects, vec![Effect::SendLogin]);

    let mut state = state;
    let mut all = effects;
    for chunk in [
        &b"A001 OK done\r\n"[..],
        &b"A002 OK done\r\n"[..],
        &b"+ idling\r\n"[..],
    ] {
        let out = handle_chunk(state, chunk);
        assert_eq!(out.error, None);
        state = out.state;
        all.extend(out.effects);
    }
    assert_eq!(state, ImapState::Idling);
    assert_eq!(
        all,
        vec![Effect::SendLogin, Effect::SendSelect, Effect::StartIdle, Effect::IdleConfirmed]
    );
    assert!(!all.contains(&Effect::NewMail));
    assert_eq!(all.iter().filter(|e| **e == Effect::SendLogin).count(), 1);

    let out = handle_chunk(state, b"* 1 EXISTS\r\n");
    assert_eq!(out.error, None);
    assert_eq!(out.effects, vec![Effect::NewMail]);
}

#[test]
fn empty_lines_are_dropped() {
    assert_eq!(
        split_lines(b"\r\n\r\n* OK hi\r\n\r\n\n\rA001 OK\n"),
        vec![b"* OK hi".to_vec(), b"A001 OK".to_vec()]
    );
    assert!(split_lines(b"\r\n\r\n\n").is_empty());
    assert!(split_lines(b"").is_empty());
    assert_eq!(split_lines(b"tail"), vec![b"tail".to_vec()]);
}

#[test]
fn empty_lines_never_reach_state_machine() {
    let out = handle_chunk(ImapState::Unauthenticated, b"\r\n\r\n* OK ready\r\n\r\n");
    assert_eq!(out.effects, vec![Effect::SendLogin]);
    assert_eq!(out.state, ImapState::Authenticated);
}

#[test]
fn error_messages() {
    assert_eq!(
        ProtocolError::AuthenticationRejected.message(),
        "The server rejected authentication"
    );
    assert_eq!(ProtocolError::SelectRejected.message(), "Selecting inbox failed");
}

#[test]
fn commands_for_effects() {
    assert_eq!(
        command_bytes(Effect::SendLogin, b"bob", b"pw"),
        Some(b"A001 login bob pw\r\n".to_vec())
    );
    assert_eq!(
        command_bytes(Effect::SendSelect, b"bob", b"pw"),
        Some(b"A002 select inbox\r\n".to_vec())
    );
    assert_eq!(command_bytes(Effect::StartIdle, b"bob", b"pw"), Some(b"A003 idle\r\n".to_vec()));
    assert_eq!(command_bytes(Effect::NewMail, b"bob", b"pw"), None);
    assert_eq!(command_bytes(Effect::Nothing, b"bob", b"pw"), None);
}
