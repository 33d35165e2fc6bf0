use vstd::prelude::*;

use vstd::arithmetic::power::lemma_pow0;
use vstd::arithmetic::power2::{pow2, lemma_pow2, lemma_pow2_unfold};

use crate::protocol::ProtocolError;

verus! {

/// The I/O conditions that a session can end with.
#[derive(Clone, Copy, Debug, PartialEq, Eq, Structural)]
pub enum IoFailure {
    /// The stream was interrupted.
    Interrupted,
    /// A read blocked past the idle timeout.
    ReadTimedOut,
    /// The peer closed the channel mid-session.
    ClosedByPeer,
    ConnectionRefused,
    ConnectionReset,
    ConnectionAborted,
    NotConnected,
    HostUnreachable,
    NetworkUnreachable,
    /// The server's name resolved to no endpoint.
    NameResolution,
    /// Any other I/O error.
    Other,
}

/// How one connect-authenticate-idle session ended.
#[derive(Clone, Copy, Debug, PartialEq, Eq, Structural)]
pub enum SessionEnd {
    /// The session returned without an error.
    Finished,
    /// An I/O condition ended it.
    Io(IoFailure),
    /// The server rejected the login or the selection.
    Rejected(ProtocolError),
    /// Anything else, a failed TLS negotiation included.
    Other,
}

/// The three failure classes.
#[derive(Clone, Copy, Debug, PartialEq, Eq, Structural)]
pub enum FailureClass {
    /// Retry after a short fixed delay.
    Transient,
    /// Retry after an exponentially growing delay.
    Unreachable,
    /// Stop and surface the error.
    Fatal,
}

/// The class of a session's end.
pub open spec fn class_of(end: SessionEnd) -> FailureClass {
    match end {
        SessionEnd::Finished => FailureClass::Transient,
        SessionEnd::Io(f) => match f {
            IoFailure::Interrupted | IoFailure::ReadTimedOut | IoFailure::ClosedByPeer => {
                FailureClass::Transient
            },
            IoFailure::Other => FailureClass::Fatal,
            _ => FailureClass::Unreachable,
        },
        SessionEnd::Rejected(_) => FailureClass::Fatal,
        SessionEnd::Other => FailureClass::Fatal,
    }
}

/// Classifies how a session ended.
pub fn classify(end: SessionEnd) -> (r: FailureClass)
    ensures
        r == class_of(end),
{
    match end {
        SessionEnd::Finished => FailureClass::Transient,
        SessionEnd::Io(f) => match f {
            IoFailure::Interrupted => FailureClass::Transient,
            IoFailure::ReadTimedOut => FailureClass::Transient,
            IoFailure::ClosedByPeer => FailureClass::Transient,
            IoFailure::Other => FailureClass::Fatal,
            _ => FailureClass::Unreachable,
        },
        SessionEnd::Rejected(_) => FailureClass::Fatal,
        SessionEnd::Other => FailureClass::Fatal,
    }
}

/// What the reconnection loop does after a session ended.
#[derive(Clone, Copy, Debug, PartialEq, Eq, Structural)]
pub enum Decision {
    /// Mark the run status disconnected, wait this many seconds and start a
    /// new session.
    Retry(u64),
    /// Stop the loop and surface the error.
    Stop,
}

/// The reconnection policy's state: its constants, in seconds, and the wait
/// that the next UNREACHABLE outcome gets.
#[derive(Clone, Copy, Debug, PartialEq, Eq, Structural)]
pub struct Backoff {
    pub initial: u64,
    pub cap: u64,
    pub transient_delay: u64,
    pub next: u64,
}

/// Default first backoff wait, in seconds.
pub const INITIAL_BACKOFF: u64 = 1;

/// Default largest backoff wait, in seconds.
pub const MAX_BACKOFF: u64 = 1800;

/// Default wait after a TRANSIENT outcome, in seconds.
pub const TRANSIENT_DELAY: u64 = 10;

impl Backoff {
    pub open spec fn wf(&self) -> bool {
        &&& 1 <= self.initial <= self.cap
        &&& self.initial <= self.next <= self.cap
    }

    /// A policy with the given first wait, cap and transient delay.
    pub fn new(initial: u64, cap: u64, transient_delay: u64) -> (r: Backoff)
        requires
            1 <= initial <= cap,
        ensures
            r.wf(),
            r == (Backoff { initial, cap, transient_delay, next: initial }),
    {
        Backoff { initial, cap, transient_delay, next: initial }
    }

    /// The policy with the default constants.
    pub fn standard() -> (r: Backoff)
        ensures
            r.wf(),
            r == (Backoff {
                initial: INITIAL_BACKOFF,
                cap: MAX_BACKOFF,
                transient_delay: TRANSIENT_DELAY,
                next: INITIAL_BACKOFF,
            }),
    {
        Backoff::new(INITIAL_BACKOFF, MAX_BACKOFF, TRANSIENT_DELAY)
    }

    /// Responds to one classified outcome.
    pub fn on_outcome(&mut self, class: FailureClass) -> (r: Decision)
        requires
            old(self).wf(),
        ensures
            final(self).wf(),
            (*final(self), r) == policy_step(*old(self), class),
    {
        match class {
            FailureClass::Transient => {
                self.next = self.initial;
                Decision::Retry(self.transient_delay)
            },
            FailureClass::Unreachable => {
                let wait = self.next;
                self.next = if wait > self.cap / 2 {
                    self.cap
                } else {
                    wait * 2
                };
                Decision::Retry(wait)
            },
            FailureClass::Fatal => Decision::Stop,
        }
    }

    /// Classifies how a session ended and responds to it.
    pub fn after_session(&mut self, end: SessionEnd) -> (r: Decision)
        requires
            old(self).wf(),
        ensures
            final(self).wf(),
            (*final(self), r) == policy_step(*old(self), class_of(end)),
    {
        let class = classify(end);
        self.on_outcome(class)
    }
}

pub open spec fn min(a: int, b: int) -> int {
    if a <= b {
        a
    } else {
        b
    }
}

/// One step of the policy: its new state and its decision.
pub open spec fn policy_step(b: Backoff, class: FailureClass) -> (Backoff, Decision) {
    match class {
        FailureClass::Transient => (Backoff { next: b.initial, ..b }, Decision::Retry(b.transient_delay)),
        FailureClass::Unreachable => (
            Backoff { next: min(2 * b.next, b.cap as int) as u64, ..b },
            Decision::Retry(b.next),
        ),
        FailureClass::Fatal => (b, Decision::Stop),
    }
}

/// The policy run over a history of outcomes: its final state and its
/// decisions, one per outcome.
pub open spec fn run_policy(b: Backoff, classes: Seq<FailureClass>) -> (Backoff, Seq<Decision>)
    decreases classes.len(),
{
    if classes.len() == 0 {
        (b, Seq::empty())
    } else {
        let (b1, ds) = run_policy(b, classes.drop_last());
        let (b2, d) = policy_step(b1, classes.last());
        (b2, ds.push(d))
    }
}

/// The number of UNREACHABLE outcomes since the last TRANSIENT one.
pub open spec fn unreachable_streak(classes: Seq<FailureClass>) -> nat
    decreases classes.len(),
{
    if classes.len() == 0 {
        0
    } else {
        match classes.last() {
            FailureClass::Transient => 0,
            FailureClass::Unreachable => unreachable_streak(classes.drop_last()) + 1,
            FailureClass::Fatal => unreachable_streak(classes.drop_last()),
        }
    }
}

proof fn lemma_run_policy_state(b: Backoff, classes: Seq<FailureClass>)
    requires
        b.wf(),
        b.next == b.initial,
    ensures
        run_policy(b, classes).0.wf(),
        run_policy(b, classes).0.initial == b.initial,
        run_policy(b, classes).0.cap == b.cap,
        run_policy(b, classes).0.transient_delay == b.transient_delay,
        run_policy(b, classes).0.next == min(
            b.initial * pow2(unreachable_streak(classes)),
            b.cap as int,
        ),
    decreases classes.len(),
{
    if classes.len() == 0 {
        lemma_pow0(2);
        lemma_pow2(0);
        assert(pow2(0) == 1);
        assert(b.initial * pow2(0) == b.initial);
    } else {
        let t = classes.drop_last();
        lemma_run_policy_state(b, t);
        let k = unreachable_streak(t);
        if classes.last() == FailureClass::Unreachable {
            lemma_pow2_unfold(k + 1);
            assert((k + 1) as nat - 1 == k);
            assert(b.initial * pow2(k + 1) == 2 * (b.initial * pow2(k))) by (nonlinear_arith)
                requires
                    pow2(k + 1) == 2 * pow2(k),
            ;
            let x = b.initial * pow2(k);
            let prev = run_policy(b, t).0;
            assert(prev.next == min(x, b.cap as int));
            assert(unreachable_streak(classes) == k + 1);
            assert(run_policy(b, classes).0.next == min(2 * prev.next, b.cap as int));
            assert(min(2 * min(x, b.cap as int), b.cap as int) == min(2 * x, b.cap as int));
        } else if classes.last() == FailureClass::Transient {
            lemma_pow0(2);
            lemma_pow2(0);
            assert(pow2(0) == 1);
            assert(b.initial * pow2(0) == b.initial);
            assert(unreachable_streak(classes) == 0);
        } else {
            assert(unreachable_streak(classes) == k);
        }
    }
}

/// Backoff law: from a fresh policy, whatever the history of outcomes, an
/// UNREACHABLE outcome waits the initial delay doubled once for each
/// UNREACHABLE outcome since the last TRANSIENT one, up to the cap; a
/// TRANSIENT outcome waits the fixed transient delay and resets the backoff,
/// so that the next UNREACHABLE outcome waits the initial delay again.
pub proof fn lemma_backoff_law(b: Backoff, classes: Seq<FailureClass>)
    requires
        b.wf(),
        b.next == b.initial,
        classes.len() > 0,
    ensures
        classes.last() == FailureClass::Unreachable ==> run_policy(b, classes).1.last()
            == Decision::Retry(
            min(b.initial * pow2(unreachable_streak(classes.drop_last())), b.cap as int) as u64,
        ),
        classes.last() == FailureClass::Transient ==> run_policy(b, classes).1.last()
            == Decision::Retry(b.transient_delay) && run_policy(b, classes).0.next == b.initial,
        classes.last() == FailureClass::Fatal ==> run_policy(b, classes).1.last()
            == Decision::Stop,
{
    lemma_run_policy_state(b, classes.drop_last());
}

} // verus!
