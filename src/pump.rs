use vstd::prelude::*;

verus! {

/// What the secure transport pump does on one iteration.
#[derive(Clone, Copy, Debug, PartialEq, Eq, Structural)]
pub enum PumpPhase {
    /// Perform one round of handshake I/O.
    Handshake,
    /// Flush pending outbound ciphertext.
    Flush,
    /// Read one chunk of ciphertext and feed it to the security layer.
    Read,
    /// The peer has closed the channel: the session must reconnect.
    Closed,
}

/// The phase chosen from the security layer's three reports, in strict
/// priority order: handshake, then write, then read.
pub open spec fn phase_for(handshaking: bool, wants_write: bool, wants_read: bool) -> PumpPhase {
    if handshaking {
        PumpPhase::Handshake
    } else if wants_write {
        PumpPhase::Flush
    } else if wants_read {
        PumpPhase::Read
    } else {
        PumpPhase::Closed
    }
}

/// Chooses what the pump does next.
pub fn next_phase(handshaking: bool, wants_write: bool, wants_read: bool) -> (r: PumpPhase)
    ensures
        r == phase_for(handshaking, wants_write, wants_read),
{
    if handshaking {
        PumpPhase::Handshake
    } else if wants_write {
        PumpPhase::Flush
    } else if wants_read {
        PumpPhase::Read
    } else {
        PumpPhase::Closed
    }
}

/// The most plaintext bytes handed to line splitting at once.
pub const READ_CHUNK: usize = 2048;

/// How many decrypted bytes to take after new records were processed, given
/// how many are available: none means the records yielded no plaintext and
/// the pump goes round again without yielding; otherwise at most one chunk.
pub fn bytes_to_take(available: usize) -> (r: usize)
    ensures
        r == if available <= READ_CHUNK {
            available
        } else {
            READ_CHUNK
        },
{
    if available <= READ_CHUNK {
        available
    } else {
        READ_CHUNK
    }
}

} // verus!
