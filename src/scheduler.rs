use vstd::prelude::*;

verus! {

/// How long the interval timer sleeps while the connection is down, in
/// seconds: the main loop wakes it once the connection is back.
pub const FALLBACK_WAIT: u64 = 1800;

/// The interval timer's choice on waking: whether to run the action now, and
/// how many seconds to sleep afterwards.
#[derive(Clone, Copy, Debug, PartialEq, Eq, Structural)]
pub struct TimerDecision {
    pub run: bool,
    pub wait: u64,
}

/// The interval timer's rule: when disconnected, sleep the fallback wait;
/// when connected and the interval has elapsed since the last run, run and
/// sleep a full interval; else sleep what remains of the interval.
pub open spec fn timer_rule(interval: u64, connected: bool, elapsed: u64) -> TimerDecision {
    if !connected {
        TimerDecision { run: false, wait: FALLBACK_WAIT }
    } else if elapsed >= interval {
        TimerDecision { run: true, wait: interval }
    } else {
        TimerDecision { run: false, wait: (interval - elapsed) as u64 }
    }
}

/// Applies the interval timer's rule; times are in seconds.
pub fn timer_decision(interval: u64, connected: bool, elapsed: u64) -> (r: TimerDecision)
    ensures
        r == timer_rule(interval, connected, elapsed),
{
    if !connected {
        TimerDecision { run: false, wait: FALLBACK_WAIT }
    } else if elapsed >= interval {
        TimerDecision { run: true, wait: interval }
    } else {
        TimerDecision { run: false, wait: interval - elapsed }
    }
}

/// Seconds from `then` to `now`; zero if the clock went backwards.
pub open spec fn elapsed_between(then: u64, now: u64) -> u64 {
    if now >= then {
        (now - then) as u64
    } else {
        0
    }
}

/// The run status shared by the protocol loop and the interval timer: whether
/// the session is idling, when the action last finished (in seconds), and
/// whether a run of the action holds the critical section.
#[derive(Clone, Copy, Debug, PartialEq, Eq, Structural)]
pub struct RunStatus {
    pub connected: bool,
    pub last_run: u64,
    pub running: bool,
}

/// What happens to the run status.
#[derive(Clone, Copy, Debug, PartialEq, Eq, Structural)]
pub enum StatusEvent {
    /// The session entered push mode.
    Connected,
    /// The session ended.
    Disconnected,
    /// New mail asks for a run.
    NewMail,
    /// The interval timer woke, with the configured interval and the time now.
    TimerTick(u64, u64),
    /// A run finished at the given time.
    Finished(u64),
}

/// How an event changes the run status, and whether it starts a run.
pub open spec fn status_step(s: RunStatus, ev: StatusEvent) -> (RunStatus, bool) {
    match ev {
        StatusEvent::Connected => (RunStatus { connected: true, ..s }, false),
        StatusEvent::Disconnected => (RunStatus { connected: false, ..s }, false),
        StatusEvent::NewMail => if s.running {
            (s, false)
        } else {
            (RunStatus { running: true, ..s }, true)
        },
        StatusEvent::TimerTick(interval, now) => {
            let d = timer_rule(interval, s.connected, elapsed_between(s.last_run, now));
            if d.run && !s.running {
                (RunStatus { running: true, ..s }, true)
            } else {
                (s, false)
            }
        },
        StatusEvent::Finished(now) => if s.running {
            (RunStatus { running: false, last_run: now, ..s }, false)
        } else {
            (s, false)
        },
    }
}

impl RunStatus {
    /// A status for a process that starts now: not connected, counting the
    /// interval from now.
    pub fn new(now: u64) -> (r: RunStatus)
        ensures
            r == (RunStatus { connected: false, last_run: now, running: false }),
    {
        RunStatus { connected: false, last_run: now, running: false }
    }

    /// Marks the session as idling.
    pub fn mark_connected(&mut self)
        ensures
            *final(self) == status_step(*old(self), StatusEvent::Connected).0,
    {
        self.connected = true;
    }

    /// Marks the session as down.
    pub fn mark_disconnected(&mut self)
        ensures
            *final(self) == status_step(*old(self), StatusEvent::Disconnected).0,
    {
        self.connected = false;
    }

    /// Asks to run the action for new mail: granted unless a run holds the
    /// critical section.
    pub fn begin_mail_run(&mut self) -> (r: bool)
        ensures
            (*final(self), r) == status_step(*old(self), StatusEvent::NewMail),
            r == !old(self).running,
    {
        if self.running {
            false
        } else {
            self.running = true;
            true
        }
    }

    /// The interval timer's turn: decides by the timer's rule, and starts a
    /// run when the rule asks for one and no run holds the critical section.
    pub fn timer_tick(&mut self, interval: u64, now: u64) -> (r: TimerDecision)
        ensures
            (*final(self), r.run) == status_step(*old(self), StatusEvent::TimerTick(interval, now)),
            r.wait == timer_rule(
                interval,
                old(self).connected,
                elapsed_between(old(self).last_run, now),
            ).wait,
    {
        let elapsed: u64 = if now >= self.last_run {
            now - self.last_run
        } else {
            0
        };
        let d = timer_decision(interval, self.connected, elapsed);
        if d.run && !self.running {
            self.running = true;
            d
        } else {
            TimerDecision { run: false, wait: d.wait }
        }
    }

    /// Ends the run that holds the critical section, recording its time.
    pub fn finish_run(&mut self, now: u64)
        ensures
            *final(self) == status_step(*old(self), StatusEvent::Finished(now)).0,
    {
        if self.running {
            self.running = false;
            self.last_run = now;
        }
    }
}

/// The status after a sequence of events.
pub open spec fn run_events(s: RunStatus, evs: Seq<StatusEvent>) -> RunStatus
    decreases evs.len(),
{
    if evs.len() == 0 {
        s
    } else {
        status_step(run_events(s, evs.drop_last()), evs.last()).0
    }
}

/// The number of runs started and not yet finished after a sequence of
/// events, counted from the events themselves.
pub open spec fn active_runs(s: RunStatus, evs: Seq<StatusEvent>) -> int
    decreases evs.len(),
{
    if evs.len() == 0 {
        0
    } else {
        let before = run_events(s, evs.drop_last());
        let started = status_step(before, evs.last()).1;
        let ended = before.running && evs.last() is Finished;
        active_runs(s, evs.drop_last()) + (if started {
            1int
        } else {
            0int
        }) - (if ended {
            1int
        } else {
            0int
        })
    }
}

/// Mutual exclusion: from a status that no run holds, whatever events arrive
/// and in whatever order (new mail and a timer expiry at the same instant
/// included), at most one run of the action is ever in progress.
pub proof fn lemma_at_most_one_run(s: RunStatus, evs: Seq<StatusEvent>)
    requires
        !s.running,
    ensures
        active_runs(s, evs) == (if run_events(s, evs).running {
            1int
        } else {
            0int
        }),
        0 <= active_runs(s, evs) <= 1,
    decreases evs.len(),
{
    if evs.len() > 0 {
        lemma_at_most_one_run(s, evs.drop_last());
    }
}

} // verus!
