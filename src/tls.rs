use vstd::prelude::*;

use rustls::ClientConnection;
use std::io::{Read, Write};

use crate::lines::{split_state, LineBuffer};
use crate::protocol::{command_bytes, handle_buffered, outcome_view, run_lines, ImapState, Outcome};
use crate::pump::{bytes_to_take, next_phase, PumpPhase, READ_CHUNK};

verus! {

#[verifier::external_type_specification]
#[verifier::external_body]
pub struct ExClientConnection(rustls::ClientConnection);

#[verifier::external_type_specification]
#[verifier::external_body]
pub struct ExTlsError(rustls::Error);

#[verifier::external_type_specification]
#[verifier::external_body]
pub struct ExIoError(std::io::Error);

/// Why pumping the secure transport failed.
pub enum PumpError {
    /// The security layer refused the records it received.
    Tls(rustls::Error),
    /// Reading plaintext from, or queueing plaintext into, the session failed.
    Io(std::io::Error),
}

/// Relies on rustls's `CommonState::is_handshaking`: whether the handshake
/// is still in progress.
#[verifier::external_body]
fn handshaking(conn: &ClientConnection) -> (r: bool) {
    conn.is_handshaking()
}

/// Relies on rustls's `CommonState::wants_write`: whether ciphertext waits to
/// be sent.
#[verifier::external_body]
fn wants_write(conn: &ClientConnection) -> (r: bool) {
    conn.wants_write()
}

/// Relies on rustls's `CommonState::wants_read`: whether the session takes
/// more ciphertext.
#[verifier::external_body]
fn wants_read(conn: &ClientConnection) -> (r: bool) {
    conn.wants_read()
}

/// Relies on rustls's `ConnectionCommon::process_new_packets`, and on
/// `IoState::plaintext_bytes_to_read` of its result: decrypts the records
/// read so far and tells how many plaintext bytes became available.
#[verifier::external_body]
fn process_packets(conn: &mut ClientConnection) -> (r: Result<usize, rustls::Error>) {
    conn.process_new_packets().map(|s| s.plaintext_bytes_to_read())
}

/// Relies on `Read::read` of rustls's plaintext `Reader`, which fills at most
/// the buffer it is given.
#[verifier::external_body]
fn read_plaintext(conn: &mut ClientConnection, max: usize) -> (r: Result<Vec<u8>, std::io::Error>)
    ensures
        r matches Ok(v) ==> v@.len() <= max,
{
    let mut buf = vec![0u8; max];
    let len = conn.reader().read(&mut buf)?;
    buf.truncate(len);
    Ok(buf)
}

/// Relies on `Write::write_all` of rustls's plaintext `Writer`: queues bytes
/// to be encrypted and sent.
#[verifier::external_body]
fn queue_plaintext(conn: &mut ClientConnection, bytes: &[u8]) -> (r: Result<(), std::io::Error>) {
    conn.writer().write_all(bytes)
}

/// What the pump does next on this session: `next_phase` applied to the
/// session's own reports, which depend on its state and are not modelled.
pub fn current_phase(conn: &ClientConnection) -> (r: PumpPhase) {
    let h = handshaking(conn);
    let w = wants_write(conn);
    let rd = wants_read(conn);
    next_phase(h, w, rd)
}

/// Plaintext taken from the session, the lines it completed and what the
/// state machine made of them.
pub struct Received {
    pub chunk: Vec<u8>,
    pub lines: Vec<Vec<u8>>,
    pub outcome: Outcome,
}

/// After ciphertext was read into the session: decrypts it, and if plaintext
/// came of it, takes at most one chunk of it, feeds it through the line
/// buffer to the state machine from `state` and queues the commands that the
/// lines ask for. `None` means that no plaintext came, and the pump goes
/// round again.
pub fn on_records(
    conn: &mut ClientConnection,
    buf: &mut LineBuffer,
    state: ImapState,
    username: &[u8],
    password: &[u8],
) -> (r: Result<Option<Received>, PumpError>)
    requires
        old(buf).wf(),
    ensures
        final(buf).wf(),
        r matches Ok(None) ==> final(buf)@ == old(buf)@,
        r matches Ok(Some(rcv)) ==> {
            &&& rcv.chunk@.len() <= READ_CHUNK
            &&& rcv.lines@.map_values(|l: Vec<u8>| l@) == split_state(old(buf)@ + rcv.chunk@).0
            &&& final(buf)@ == split_state(old(buf)@ + rcv.chunk@).1
            &&& outcome_view(rcv.outcome) == run_lines(
                state,
                split_state(old(buf)@ + rcv.chunk@).0,
            )
        },
{
    let available = match process_packets(conn) {
        Ok(n) => n,
        Err(e) => {
            return Err(PumpError::Tls(e));
        },
    };
    let take = bytes_to_take(available);
    if take == 0 {
        return Ok(None);
    }
    let chunk = match read_plaintext(conn, take) {
        Ok(v) => v,
        Err(e) => {
            return Err(PumpError::Io(e));
        },
    };
    let fed = handle_buffered(state, buf, chunk.as_slice());
    let mut i: usize = 0;
    while i < fed.outcome.effects.len()
        invariant
            i <= fed.outcome.effects@.len(),
            buf.wf(),
            buf@ == split_state(old(buf)@ + chunk@).1,
        decreases fed.outcome.effects@.len() - i,
    {
        match command_bytes(fed.outcome.effects[i], username, password) {
            Some(cmd) => match queue_plaintext(conn, cmd.as_slice()) {
                Ok(()) => {},
                Err(e) => {
                    return Err(PumpError::Io(e));
                },
            },
            None => {},
        }
        i = i + 1;
    }
    Ok(Some(Received { chunk, lines: fed.lines, outcome: fed.outcome }))
}

} // verus!
