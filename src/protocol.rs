use vstd::prelude::*;

use crate::lines::{lines_of, split_lines, split_state, LineBuffer};

verus! {

/// Where the session stands in the login, select, idle sequence.
#[derive(Clone, Copy, Debug, PartialEq, Eq, Structural)]
pub enum ImapState {
    Unauthenticated,
    Authenticated,
    Inbox,
    Idling,
}

/// What the caller has to do after a line was handled.
#[derive(Clone, Copy, Debug, PartialEq, Eq, Structural)]
pub enum Effect {
    /// The line asks for nothing.
    Nothing,
    /// Send the login command.
    SendLogin,
    /// Send the select command.
    SendSelect,
    /// Send the idle command; push notifications now arrive, so the run
    /// status is marked connected and the interval timer woken.
    StartIdle,
    /// The server confirmed push mode: informational only.
    IdleConfirmed,
    /// New mail exists: run the external action.
    NewMail,
}

/// A rejection by the server, which ends the session for good.
#[derive(Clone, Copy, Debug, PartialEq, Eq, Structural)]
pub enum ProtocolError {
    AuthenticationRejected,
    SelectRejected,
}

impl ProtocolError {
    /// The message shown for this error.
    pub fn message(&self) -> (r: String)
        ensures
            *self == ProtocolError::AuthenticationRejected ==> r@
                == "The server rejected authentication"@,
            *self == ProtocolError::SelectRejected ==> r@ == "Selecting inbox failed"@,
    {
        match self {
            ProtocolError::AuthenticationRejected => {
                let s = String::from_str("The server rejected authentication");
                proof {
                    reveal_strlit("The server rejected authentication");
                }
                s
            },
            ProtocolError::SelectRejected => {
                let s = String::from_str("Selecting inbox failed");
                proof {
                    reveal_strlit("Selecting inbox failed");
                }
                s
            },
        }
    }
}

pub open spec fn starts_with(s: Seq<u8>, p: Seq<u8>) -> bool {
    p.len() <= s.len() && s.subrange(0, p.len() as int) == p
}

pub open spec fn ends_with(s: Seq<u8>, p: Seq<u8>) -> bool {
    p.len() <= s.len() && s.subrange(s.len() - p.len(), s.len() as int) == p
}

/// `* OK`
pub open spec fn greeting() -> Seq<u8> {
    seq![42u8, 32u8, 79u8, 75u8]
}

/// `A001`, the login command's tag.
pub open spec fn login_tag() -> Seq<u8> {
    seq![65u8, 48u8, 48u8, 49u8]
}

/// `A002`, the select command's tag.
pub open spec fn select_tag() -> Seq<u8> {
    seq![65u8, 48u8, 48u8, 50u8]
}

/// `A003`, the idle command's tag.
pub open spec fn idle_tag() -> Seq<u8> {
    seq![65u8, 48u8, 48u8, 51u8]
}

/// ` OK`, which follows a tag in a success response.
pub open spec fn ok_word() -> Seq<u8> {
    seq![32u8, 79u8, 75u8]
}

/// `+`, the continuation marker.
pub open spec fn continuation() -> Seq<u8> {
    seq![43u8]
}

/// `*`, the untagged marker.
pub open spec fn untagged() -> Seq<u8> {
    seq![42u8]
}

/// `EXISTS`
pub open spec fn exists_word() -> Seq<u8> {
    seq![69u8, 88u8, 73u8, 83u8, 84u8, 83u8]
}

/// `\r\n`
pub open spec fn crlf() -> Seq<u8> {
    seq![13u8, 10u8]
}

/// The login command: `A001 login <user> <pass>\r\n`.
pub open spec fn login_command_bytes(user: Seq<u8>, pass: Seq<u8>) -> Seq<u8> {
    login_tag() + seq![32u8, 108u8, 111u8, 103u8, 105u8, 110u8, 32u8] + user + seq![32u8] + pass
        + crlf()
}

/// The select command: `A002 select inbox\r\n`.
pub open spec fn select_command_bytes() -> Seq<u8> {
    select_tag() + seq![
        32u8,
        115u8,
        101u8,
        108u8,
        101u8,
        99u8,
        116u8,
        32u8,
        105u8,
        110u8,
        98u8,
        111u8,
        120u8,
    ] + crlf()
}

/// The idle command: `A003 idle\r\n`.
pub open spec fn idle_command_bytes() -> Seq<u8> {
    idle_tag() + seq![32u8, 105u8, 100u8, 108u8, 101u8] + crlf()
}

/// A tagged success response to the login command.
pub open spec fn is_login_ok(line: Seq<u8>) -> bool {
    starts_with(line, login_tag() + ok_word())
}

/// Any other tagged response to the login command.
pub open spec fn is_login_failure(line: Seq<u8>) -> bool {
    starts_with(line, login_tag()) && !is_login_ok(line)
}

/// A tagged success response to the select command.
pub open spec fn is_select_ok(line: Seq<u8>) -> bool {
    starts_with(line, select_tag() + ok_word())
}

/// Any other tagged response to the select command.
pub open spec fn is_select_failure(line: Seq<u8>) -> bool {
    starts_with(line, select_tag()) && !is_select_ok(line)
}

/// The untagged push that announces new messages.
pub open spec fn is_new_mail(line: Seq<u8>) -> bool {
    starts_with(line, untagged()) && ends_with(line, exists_word())
}

/// How one line moves the state machine.
pub open spec fn transition(state: ImapState, line: Seq<u8>) -> Result<
    (ImapState, Effect),
    ProtocolError,
> {
    match state {
        ImapState::Unauthenticated => if starts_with(line, greeting()) {
            Ok((ImapState::Authenticated, Effect::SendLogin))
        } else {
            Ok((state, Effect::Nothing))
        },
        ImapState::Authenticated => if is_login_ok(line) {
            Ok((ImapState::Inbox, Effect::SendSelect))
        } else if is_login_failure(line) {
            Err(ProtocolError::AuthenticationRejected)
        } else {
            Ok((state, Effect::Nothing))
        },
        ImapState::Inbox => if is_select_ok(line) {
            Ok((ImapState::Idling, Effect::StartIdle))
        } else if is_select_failure(line) {
            Err(ProtocolError::SelectRejected)
        } else {
            Ok((state, Effect::Nothing))
        },
        ImapState::Idling => if starts_with(line, continuation()) {
            Ok((state, Effect::IdleConfirmed))
        } else if is_new_mail(line) {
            Ok((state, Effect::NewMail))
        } else {
            Ok((state, Effect::Nothing))
        },
    }
}

/// Whether `s` begins with `p`.
pub fn has_prefix(s: &[u8], p: &[u8]) -> (r: bool)
    ensures
        r == starts_with(s@, p@),
{
    if p.len() > s.len() {
        return false;
    }
    let mut i: usize = 0;
    while i < p.len()
        invariant
            p@.len() <= s@.len(),
            i <= p@.len(),
            forall|k: int| 0 <= k < i ==> s@[k] == p@[k],
        decreases p@.len() - i,
    {
        if s[i] != p[i] {
            assert(s@.subrange(0, p@.len() as int)[i as int] != p@[i as int]);
            return false;
        }
        i = i + 1;
    }
    assert(s@.subrange(0, p@.len() as int) =~= p@);
    true
}

/// Whether `s` ends with `p`.
pub fn has_suffix(s: &[u8], p: &[u8]) -> (r: bool)
    ensures
        r == ends_with(s@, p@),
{
    if p.len() > s.len() {
        return false;
    }
    let off: usize = s.len() - p.len();
    let mut i: usize = 0;
    while i < p.len()
        invariant
            p@.len() <= s@.len(),
            off == s@.len() - p@.len(),
            s@.len() == s.len(),
            p@.len() == p.len(),
            i <= p@.len(),
            forall|k: int| 0 <= k < i ==> s@[off + k] == p@[k],
        decreases p@.len() - i,
    {
        if s[off + i] != p[i] {
            assert(s@.subrange(off as int, s@.len() as int)[i as int] != p@[i as int]);
            return false;
        }
        i = i + 1;
    }
    assert(s@.subrange(off as int, s@.len() as int) =~= p@);
    true
}

/// Handles one line in state `state`: the next state and what to do, or the
/// rejection that ends the session.
pub fn handle_line(state: ImapState, line: &[u8]) -> (r: Result<(ImapState, Effect), ProtocolError>)
    ensures
        r == transition(state, line@),
{
    let greeting_p: [u8; 4] = [42, 32, 79, 75];
    let login_p: [u8; 4] = [65, 48, 48, 49];
    let login_ok_p: [u8; 7] = [65, 48, 48, 49, 32, 79, 75];
    let select_p: [u8; 4] = [65, 48, 48, 50];
    let select_ok_p: [u8; 7] = [65, 48, 48, 50, 32, 79, 75];
    let cont_p: [u8; 1] = [43];
    let untagged_p: [u8; 1] = [42];
    let exists_p: [u8; 6] = [69, 88, 73, 83, 84, 83];
    assert(greeting_p@ =~= greeting());
    assert(login_p@ =~= login_tag());
    assert(login_ok_p@ =~= login_tag() + ok_word());
    assert(select_p@ =~= select_tag());
    assert(select_ok_p@ =~= select_tag() + ok_word());
    assert(cont_p@ =~= continuation());
    assert(untagged_p@ =~= untagged());
    assert(exists_p@ =~= exists_word());
    match state {
        ImapState::Unauthenticated => if has_prefix(line, &greeting_p) {
            Ok((ImapState::Authenticated, Effect::SendLogin))
        } else {
            Ok((state, Effect::Nothing))
        },
        ImapState::Authenticated => if has_prefix(line, &login_ok_p) {
            Ok((ImapState::Inbox, Effect::SendSelect))
        } else if has_prefix(line, &login_p) {
            Err(ProtocolError::AuthenticationRejected)
        } else {
            Ok((state, Effect::Nothing))
        },
        ImapState::Inbox => if has_prefix(line, &select_ok_p) {
            Ok((ImapState::Idling, Effect::StartIdle))
        } else if has_prefix(line, &select_p) {
            Err(ProtocolError::SelectRejected)
        } else {
            Ok((state, Effect::Nothing))
        },
        ImapState::Idling => if has_prefix(line, &cont_p) {
            Ok((state, Effect::IdleConfirmed))
        } else if has_prefix(line, &untagged_p) && has_suffix(line, &exists_p) {
            Ok((state, Effect::NewMail))
        } else {
            Ok((state, Effect::Nothing))
        },
    }
}

/// Appends the bytes of `b` to `v`.
fn append_bytes(v: &mut Vec<u8>, b: &[u8])
    ensures
        final(v)@ == old(v)@ + b@,
{
    let mut i: usize = 0;
    while i < b.len()
        invariant
            i <= b@.len(),
            v@ == old(v)@ + b@.subrange(0, i as int),
        decreases b@.len() - i,
    {
        v.push(b[i]);
        assert(b@.subrange(0, i as int + 1) =~= b@.subrange(0, i as int).push(b@[i as int]));
        i = i + 1;
    }
    assert(b@.subrange(0, b@.len() as int) =~= b@);
}

/// The login command carrying the configured credentials.
pub fn login_command(username: &[u8], password: &[u8]) -> (r: Vec<u8>)
    ensures
        r@ == login_command_bytes(username@, password@),
{
    let head: [u8; 11] = [65, 48, 48, 49, 32, 108, 111, 103, 105, 110, 32];
    let space: [u8; 1] = [32];
    let end: [u8; 2] = [13, 10];
    let mut v: Vec<u8> = Vec::new();
    append_bytes(&mut v, &head);
    append_bytes(&mut v, username);
    append_bytes(&mut v, &space);
    append_bytes(&mut v, password);
    append_bytes(&mut v, &end);
    assert(v@ =~= login_command_bytes(username@, password@));
    v
}

/// The command that selects the inbox.
pub fn select_command() -> (r: Vec<u8>)
    ensures
        r@ == select_command_bytes(),
{
    let bytes: [u8; 19] = [
        65, 48, 48, 50, 32, 115, 101, 108, 101, 99, 116, 32, 105, 110, 98, 111, 120, 13, 10,
    ];
    let mut v: Vec<u8> = Vec::new();
    append_bytes(&mut v, &bytes);
    assert(v@ =~= select_command_bytes());
    v
}

/// The command that enters push-notification mode.
pub fn idle_command() -> (r: Vec<u8>)
    ensures
        r@ == idle_command_bytes(),
{
    let bytes: [u8; 11] = [65, 48, 48, 51, 32, 105, 100, 108, 101, 13, 10];
    let mut v: Vec<u8> = Vec::new();
    append_bytes(&mut v, &bytes);
    assert(v@ =~= idle_command_bytes());
    v
}

/// The command that an effect asks to send, if any, as bytes.
pub open spec fn command_for(e: Effect, username: Seq<u8>, password: Seq<u8>) -> Option<Seq<u8>> {
    match e {
        Effect::SendLogin => Some(login_command_bytes(username, password)),
        Effect::SendSelect => Some(select_command_bytes()),
        Effect::StartIdle => Some(idle_command_bytes()),
        _ => None,
    }
}

/// The command that an effect asks to send, if any.
pub fn command_bytes(e: Effect, username: &[u8], password: &[u8]) -> (r: Option<Vec<u8>>)
    ensures
        r matches Some(v) ==> command_for(e, username@, password@) == Some(v@),
        r is None ==> command_for(e, username@, password@) is None,
{
    match e {
        Effect::SendLogin => Some(login_command(username, password)),
        Effect::SendSelect => Some(select_command()),
        Effect::StartIdle => Some(idle_command()),
        _ => None,
    }
}

/// The result of feeding lines to the state machine: the state reached, the
/// effects of the lines handled, in order, and the rejection that stopped it,
/// if one did.
pub struct Outcome {
    pub state: ImapState,
    pub effects: Vec<Effect>,
    pub error: Option<ProtocolError>,
}

/// Feeding `lines` to the state machine from `state`. A rejection stops it:
/// the lines after it are not looked at.
pub open spec fn run_lines(state: ImapState, lines: Seq<Seq<u8>>) -> (
    ImapState,
    Seq<Effect>,
    Option<ProtocolError>,
)
    decreases lines.len(),
{
    if lines.len() == 0 {
        (state, Seq::empty(), None)
    } else {
        let (s, effects, error) = run_lines(state, lines.drop_last());
        if error.is_some() {
            (s, effects, error)
        } else {
            match transition(s, lines.last()) {
                Ok((next, e)) => (next, effects.push(e), None),
                Err(x) => (s, effects, Some(x)),
            }
        }
    }
}

/// The view of an outcome.
pub open spec fn outcome_view(o: Outcome) -> (ImapState, Seq<Effect>, Option<ProtocolError>) {
    (o.state, o.effects@, o.error)
}

/// Once a rejection has stopped the state machine, further lines change nothing.
pub proof fn lemma_rejection_is_final(state: ImapState, lines: Seq<Seq<u8>>, i: int)
    requires
        0 <= i <= lines.len(),
        run_lines(state, lines.take(i)).2.is_some(),
    ensures
        run_lines(state, lines) == run_lines(state, lines.take(i)),
    decreases lines.len() - i,
{
    if i < lines.len() {
        assert(lines.take(i + 1).drop_last() =~= lines.take(i));
        lemma_rejection_is_final(state, lines, i + 1);
    } else {
        assert(lines.take(i) =~= lines);
    }
}

/// Feeds lines to the state machine, stopping at the first rejection.
pub fn handle_lines(state: ImapState, lines: &Vec<Vec<u8>>) -> (r: Outcome)
    ensures
        outcome_view(r) == run_lines(state, lines@.map_values(|l: Vec<u8>| l@)),
{
    let ghost ls = lines@.map_values(|l: Vec<u8>| l@);
    let mut cur = state;
    let mut effects: Vec<Effect> = Vec::new();
    let mut error: Option<ProtocolError> = None;
    let mut i: usize = 0;
    while i < lines.len() && error.is_none()
        invariant
            i <= lines@.len(),
            ls == lines@.map_values(|l: Vec<u8>| l@),
            (cur, effects@, error) == run_lines(state, ls.take(i as int)),
        decreases lines@.len() - i,
    {
        proof {
            assert(ls.take(i as int + 1).drop_last() =~= ls.take(i as int));
            assert(ls.take(i as int + 1).last() == lines@[i as int]@);
        }
        match handle_line(cur, lines[i].as_slice()) {
            Ok((next, e)) => {
                cur = next;
                effects.push(e);
            },
            Err(x) => {
                error = Some(x);
            },
        }
        i = i + 1;
    }
    proof {
        if error.is_some() {
            lemma_rejection_is_final(state, ls, i as int);
        } else {
            assert(ls.take(i as int) =~= ls);
        }
    }
    Outcome { state: cur, effects, error }
}

/// Splits a chunk of decrypted bytes into lines and feeds them to the state
/// machine.
pub fn handle_chunk(state: ImapState, chunk: &[u8]) -> (r: Outcome)
    ensures
        outcome_view(r) == run_lines(state, lines_of(chunk@)),
{
    let lines = split_lines(chunk);
    handle_lines(state, &lines)
}

/// A failure response tagged for the login command, met while the session
/// waits for the login's answer, ends the session with an authentication
/// rejection, whatever lines follow it.
pub proof fn lemma_login_failure_is_fatal(state: ImapState, lines: Seq<Seq<u8>>, i: int)
    requires
        0 <= i < lines.len(),
        run_lines(state, lines.take(i)).0 == ImapState::Authenticated,
        run_lines(state, lines.take(i)).2.is_none(),
        is_login_failure(lines[i]),
    ensures
        run_lines(state, lines).2 == Some(ProtocolError::AuthenticationRejected),
{
    assert(lines.take(i + 1).drop_last() =~= lines.take(i));
    assert(lines.take(i + 1).last() == lines[i]);
    lemma_rejection_is_final(state, lines, i + 1);
}

/// A failure response tagged for the select command, met while the session
/// waits for the selection's answer, ends the session with a selection
/// rejection, whatever lines follow it.
pub proof fn lemma_select_failure_is_fatal(state: ImapState, lines: Seq<Seq<u8>>, i: int)
    requires
        0 <= i < lines.len(),
        run_lines(state, lines.take(i)).0 == ImapState::Inbox,
        run_lines(state, lines.take(i)).2.is_none(),
        is_select_failure(lines[i]),
    ensures
        run_lines(state, lines).2 == Some(ProtocolError::SelectRejected),
{
    assert(lines.take(i + 1).drop_last() =~= lines.take(i));
    assert(lines.take(i + 1).last() == lines[i]);
    lemma_rejection_is_final(state, lines, i + 1);
}

/// Lines completed by a chunk, and what the state machine made of them.
pub struct Fed {
    pub lines: Vec<Vec<u8>>,
    pub outcome: Outcome,
}

/// Feeds a chunk of decrypted bytes to the line buffer and the lines that it
/// completes to the state machine; a line cut by the chunk's end waits in the
/// buffer for the rest of it.
pub fn handle_buffered(state: ImapState, buf: &mut LineBuffer, chunk: &[u8]) -> (r: Fed)
    requires
        old(buf).wf(),
    ensures
        final(buf).wf(),
        r.lines@.map_values(|l: Vec<u8>| l@) == split_state(old(buf)@ + chunk@).0,
        final(buf)@ == split_state(old(buf)@ + chunk@).1,
        outcome_view(r.outcome) == run_lines(state, split_state(old(buf)@ + chunk@).0),
{
    let lines = buf.feed(chunk);
    let outcome = handle_lines(state, &lines);
    Fed { lines, outcome }
}

} // verus!
