//! Decisions of the transmit role: which table entry is due, when its
//! round trip is over, and when the next request of it falls due.
//!
//! The role is a state machine. The caller performs each action it returns
//! (write a request, wait for the response notification, wait for the next
//! tick) and hands back what happened as the next event.
use crate::config::PidEntry;
use vstd::prelude::*;

verus! {

/// Where the transmit role stands in a round trip.
#[derive(Clone, Copy, Debug, PartialEq, Eq, Structural)]
pub enum TxPhase {
    /// No request in flight; the next tick starts a scan of the table.
    Idle,
    /// The request of entry `index`, issued at `sent_at`, is being written.
    Writing { index: usize, sent_at: u64 },
    /// The request of entry `index` was issued at `sent_at`; the role waits
    /// for the response notification.
    Awaiting { index: usize, sent_at: u64 },
    /// A notification channel closed; the role has ended.
    Stopped,
}

/// What happened since the last action, with the time in milliseconds.
#[derive(Clone, Copy, Debug, PartialEq, Eq, Structural)]
pub enum TxEvent {
    /// The scheduling tick fired.
    Tick { now: u64 },
    /// The request write finished, successfully or not.
    WriteDone { ok: bool, now: u64 },
    /// The receive role reported on the awaited response.
    ResponseReady { matched: bool, now: u64 },
    /// No notification came before the deadline.
    ResponseTimedOut { now: u64 },
    /// A notification channel was closed.
    ChannelClosed,
}

/// What the caller is to do next.
#[derive(Clone, Copy, Debug, PartialEq, Eq, Structural)]
pub enum TxAction {
    /// Nothing is due: wait for the next tick.
    WaitForTick,
    /// Write the request bytes of entry `index` on the transport.
    Write { index: usize },
    /// Publish `index` to the receive role and wait for its notification
    /// until `deadline`.
    AwaitResponse { index: usize, deadline: u64 },
    /// The event does not belong to the current phase; nothing to do.
    Nothing,
    /// Stop: no further transport access.
    Shutdown,
}

/// Abstract state of the transmit role.
pub struct PollState {
    /// Minimum time between two requests of each entry.
    pub intervals: Seq<u64>,
    /// Time at which each entry's next request falls due.
    pub next_due: Seq<u64>,
    /// Fixed bound on the wait for a response notification.
    pub timeout: u64,
    pub phase: TxPhase,
}

impl PollState {
    /// One due time per entry, and an in-flight index names an entry.
    pub open spec fn wf(self) -> bool {
        &&& self.next_due.len() == self.intervals.len()
        &&& match self.phase {
            TxPhase::Writing { index, .. } => index < self.intervals.len(),
            TxPhase::Awaiting { index, .. } => index < self.intervals.len(),
            _ => true,
        }
    }
}

/// First entry at or after `from`, in table order, whose due time has come.
pub open spec fn first_due_from(next_due: Seq<u64>, from: int, now: u64) -> Option<int>
    decreases next_due.len() - from,
{
    if from < 0 || from >= next_due.len() {
        None
    } else if next_due[from] <= now {
        Some(from)
    } else {
        first_due_from(next_due, from + 1, now)
    }
}

proof fn lemma_first_due_in_range(next_due: Seq<u64>, from: int, now: u64)
    ensures
        match first_due_from(next_due, from, now) {
            Some(j) => from <= j < next_due.len() && next_due[j] <= now,
            None => true,
        },
    decreases next_due.len() - from,
{
    if 0 <= from < next_due.len() && next_due[from] > now {
        lemma_first_due_in_range(next_due, from + 1, now);
    }
}

/// Continues the table scan at `from`: the first due entry gets its request
/// written, issued at `now`; with none due the role goes idle.
pub open spec fn scan_from(s: PollState, from: int, now: u64) -> (PollState, TxAction) {
    match first_due_from(s.next_due, from, now) {
        Some(j) => (
            PollState { phase: TxPhase::Writing { index: j as usize, sent_at: now }, ..s },
            TxAction::Write { index: j as usize },
        ),
        None => (PollState { phase: TxPhase::Idle, ..s }, TxAction::WaitForTick),
    }
}

/// The round trip of `index`, whose request was issued at `sent_at`, is
/// over: its next request falls due one interval after `sent_at`.
pub open spec fn finish_round_trip(s: PollState, index: int, sent_at: u64) -> PollState {
    PollState {
        next_due: s.next_due.update(index, sent_at.saturating_add(s.intervals[index])),
        ..s
    }
}

/// The transmit role's transition on one event.
pub open spec fn tx_step(s: PollState, e: TxEvent) -> (PollState, TxAction) {
    match s.phase {
        TxPhase::Stopped => (s, TxAction::Shutdown),
        _ => match e {
            TxEvent::ChannelClosed => (PollState { phase: TxPhase::Stopped, ..s }, TxAction::Shutdown),
            TxEvent::Tick { now } => match s.phase {
                TxPhase::Idle => scan_from(s, 0, now),
                _ => (s, TxAction::Nothing),
            },
            TxEvent::WriteDone { ok, now } => match s.phase {
                TxPhase::Writing { index, sent_at } => if ok {
                    (
                        PollState { phase: TxPhase::Awaiting { index, sent_at }, ..s },
                        TxAction::AwaitResponse { index, deadline: now.saturating_add(s.timeout) },
                    )
                } else {
                    scan_from(finish_round_trip(s, index as int, sent_at), index + 1, now)
                },
                _ => (s, TxAction::Nothing),
            },
            TxEvent::ResponseReady { now, .. } => match s.phase {
                TxPhase::Awaiting { index, sent_at } => scan_from(
                    finish_round_trip(s, index as int, sent_at),
                    index + 1,
                    now,
                ),
                _ => (s, TxAction::Nothing),
            },
            TxEvent::ResponseTimedOut { now } => match s.phase {
                TxPhase::Awaiting { index, sent_at } => scan_from(
                    finish_round_trip(s, index as int, sent_at),
                    index + 1,
                    now,
                ),
                _ => (s, TxAction::Nothing),
            },
        },
    }
}

/// The transmit role: per-entry due times and the round trip in flight.
pub struct PollScheduler {
    intervals: Vec<u64>,
    next_due: Vec<u64>,
    response_timeout_ms: u64,
    phase: TxPhase,
}

impl View for PollScheduler {
    type V = PollState;

    closed spec fn view(&self) -> PollState {
        PollState {
            intervals: self.intervals@,
            next_due: self.next_due@,
            timeout: self.response_timeout_ms,
            phase: self.phase,
        }
    }
}

impl PollScheduler {
    /// Starts idle with every entry first due one interval after `now`.
    /// `response_timeout_ms` bounds every wait for a response notification.
    pub fn new(pid_table: &Vec<PidEntry>, now: u64, response_timeout_ms: u64) -> (r: PollScheduler)
        ensures
            r@.wf(),
            r@.phase == TxPhase::Idle,
            r@.timeout == response_timeout_ms,
            r@.intervals.len() == pid_table@.len(),
            forall|i: int|
                0 <= i < pid_table@.len() ==> {
                    &&& r@.intervals[i] == pid_table@[i].interval_ms as u64
                    &&& r@.next_due[i] == now.saturating_add(pid_table@[i].interval_ms as u64)
                },
    {
        let mut intervals: Vec<u64> = Vec::new();
        let mut next_due: Vec<u64> = Vec::new();
        let mut i: usize = 0;
        while i < pid_table.len()
            invariant
                i <= pid_table@.len(),
                intervals@.len() == i,
                next_due@.len() == i,
                forall|j: int|
                    0 <= j < i ==> {
                        &&& intervals@[j] == pid_table@[j].interval_ms as u64
                        &&& next_due@[j] == now.saturating_add(pid_table@[j].interval_ms as u64)
                    },
            decreases pid_table@.len() - i,
        {
            let interval = pid_table[i].interval_ms as u64;
            intervals.push(interval);
            next_due.push(now.saturating_add(interval));
            i += 1;
        }
        PollScheduler { intervals, next_due, response_timeout_ms, phase: TxPhase::Idle }
    }

    /// The time at which entry `index` is next due.
    pub fn next_due(&self, index: usize) -> (r: u64)
        requires
            index < self@.next_due.len(),
        ensures
            r == self@.next_due[index as int],
    {
        self.next_due[index]
    }

    /// The current phase.
    pub fn phase(&self) -> (r: TxPhase)
        ensures
            r == self@.phase,
    {
        self.phase
    }

    fn scan(&mut self, from: usize, now: u64) -> (r: TxAction)
        requires
            old(self)@.wf(),
            from <= old(self)@.next_due.len(),
        ensures
            (final(self)@, r) == scan_from(old(self)@, from as int, now),
            final(self)@.wf(),
    {
        proof {
            lemma_first_due_in_range(self@.next_due, from as int, now);
        }
        let mut j: usize = from;
        while j < self.next_due.len()
            invariant
                from <= j <= self.next_due@.len(),
                self@ == old(self)@,
                old(self)@.wf(),
                first_due_from(self@.next_due, from as int, now) == first_due_from(
                    self@.next_due,
                    j as int,
                    now,
                ),
            decreases self.next_due@.len() - j,
        {
            if self.next_due[j] <= now {
                self.phase = TxPhase::Writing { index: j, sent_at: now };
                return TxAction::Write { index: j };
            }
            j += 1;
        }
        self.phase = TxPhase::Idle;
        TxAction::WaitForTick
    }

    fn finish(&mut self, index: usize, sent_at: u64)
        requires
            old(self)@.wf(),
            index < old(self)@.intervals.len(),
        ensures
            final(self)@ == finish_round_trip(old(self)@, index as int, sent_at),
            final(self)@.wf(),
    {
        let due = sent_at.saturating_add(self.intervals[index]);
        self.next_due[index] = due;
    }

    /// Advances the role by one event and returns the next action.
    pub fn step(&mut self, event: TxEvent) -> (r: TxAction)
        requires
            old(self)@.wf(),
        ensures
            final(self)@.wf(),
            (final(self)@, r) == tx_step(old(self)@, event),
    {
        match self.phase {
            TxPhase::Stopped => TxAction::Shutdown,
            TxPhase::Idle => match event {
                TxEvent::ChannelClosed => {
                    self.phase = TxPhase::Stopped;
                    TxAction::Shutdown
                },
                TxEvent::Tick { now } => self.scan(0, now),
                _ => TxAction::Nothing,
            },
            TxPhase::Writing { index, sent_at } => match event {
                TxEvent::ChannelClosed => {
                    self.phase = TxPhase::Stopped;
                    TxAction::Shutdown
                },
                TxEvent::WriteDone { ok, now } => {
                    if ok {
                        self.phase = TxPhase::Awaiting { index, sent_at };
                        TxAction::AwaitResponse {
                            index,
                            deadline: now.saturating_add(self.response_timeout_ms),
                        }
                    } else {
                        self.finish(index, sent_at);
                        let len = self.next_due.len();
                        assert(index < len);
                        self.scan(index + 1, now)
                    }
                },
                _ => TxAction::Nothing,
            },
            TxPhase::Awaiting { index, sent_at } => match event {
                TxEvent::ChannelClosed => {
                    self.phase = TxPhase::Stopped;
                    TxAction::Shutdown
                },
                TxEvent::ResponseReady { now, .. } | TxEvent::ResponseTimedOut { now } => {
                    self.finish(index, sent_at);
                    let len = self.next_due.len();
                    assert(index < len);
                    self.scan(index + 1, now)
                },
                _ => TxAction::Nothing,
            },
        }
    }
}


/// When no response arrives in time, the entry's next request falls due
/// exactly one interval after its request was issued, not after
/// the timeout expired.
pub proof fn timeout_advances_from_request(s: PollState, now: u64)
    requires
        s.wf(),
        s.phase is Awaiting,
        s.phase->Awaiting_sent_at + s.intervals[s.phase->Awaiting_index as int] <= u64::MAX,
    ensures
        tx_step(s, TxEvent::ResponseTimedOut { now }).0.next_due[s.phase->Awaiting_index as int]
            == s.phase->Awaiting_sent_at + s.intervals[s.phase->Awaiting_index as int],
        tx_step(s, TxEvent::ResponseTimedOut { now }).0.wf(),
{
    let i = s.phase->Awaiting_index as int;
    let f = finish_round_trip(s, i, s.phase->Awaiting_sent_at);
    lemma_first_due_in_range(f.next_due, i + 1, now);
}

/// Actions of the transmit role over a sequence of events.
pub open spec fn tx_run(s: PollState, events: Seq<TxEvent>) -> Seq<TxAction>
    decreases events.len(),
{
    if events.len() == 0 {
        Seq::empty()
    } else {
        let (next, a) = tx_step(s, events[0]);
        seq![a] + tx_run(next, events.drop_first())
    }
}

proof fn lemma_tx_stopped_run(s: PollState, events: Seq<TxEvent>)
    requires
        s.phase == TxPhase::Stopped,
    ensures
        tx_run(s, events).len() == events.len(),
        forall|k: int| 0 <= k < events.len() ==> tx_run(s, events)[k] == TxAction::Shutdown,
    decreases events.len(),
{
    if events.len() > 0 {
        lemma_tx_stopped_run(s, events.drop_first());
        let rest = tx_run(s, events.drop_first());
        assert forall|k: int| 0 <= k < events.len() implies tx_run(s, events)[k]
            == TxAction::Shutdown by {
            if k > 0 {
                assert((seq![TxAction::Shutdown] + rest)[k] == rest[k - 1]);
            }
        }
    }
}

/// Closing the response channel while the transmit role waits for a
/// response ends the role: it answers that event and every later one with
/// `Shutdown`, so no further request is written.
pub proof fn closed_channel_ends_transmit_role(s: PollState, events: Seq<TxEvent>)
    requires
        s.phase is Awaiting,
    ensures
        forall|k: int|
            0 <= k < events.len() + 1 ==> tx_run(s, seq![TxEvent::ChannelClosed] + events)[k]
                == TxAction::Shutdown,
{
    let all = seq![TxEvent::ChannelClosed] + events;
    assert(all.drop_first() =~= events);
    let stopped = PollState { phase: TxPhase::Stopped, ..s };
    lemma_tx_stopped_run(stopped, events);
    let rest = tx_run(stopped, events);
    assert forall|k: int| 0 <= k < events.len() + 1 implies tx_run(s, all)[k]
        == TxAction::Shutdown by {
        if k > 0 {
            assert((seq![TxAction::Shutdown] + rest)[k] == rest[k - 1]);
        }
    }
}

} // verus!
