//! Decisions of the receive role: which entry a published index names, how
//! long to let the response travel, whether the bytes read are the awaited
//! response, and what they decode to.
use crate::config::PidEntry;
use crate::decoder::{decode_result, DecodeError, Decoder};
use crate::signal::SignalLayout;
use vstd::prelude::*;

verus! {

/// Where the receive role stands.
#[derive(Clone, Copy, Debug, PartialEq, Eq, Structural)]
pub enum RxPhase {
    /// Waiting for the transmit role to publish an index.
    Waiting,
    /// The response to entry `index` is to be read.
    Reading { index: usize },
    /// A notification channel closed; the role has ended.
    Stopped,
}

/// What happened since the last action.
#[derive(Clone, Debug, PartialEq, Eq)]
pub enum RxEvent {
    /// The transmit role published the index of the entry it just sent.
    IndexReceived { index: usize },
    /// The transport read finished: the bytes read, or `None` on a read error.
    ReadDone { response: Option<Vec<u8>> },
    /// A notification channel was closed.
    ChannelClosed,
}

/// What the caller is to do next.
#[derive(Clone, Copy, Debug, PartialEq, Eq)]
pub enum RxAction {
    /// Wait `delay_ms`, then read one response from the transport.
    Read { index: usize, delay_ms: u32 },
    /// The published index names no entry: report it and wait for the next.
    InvalidIndex { index: usize },
    /// The read failed: notify the transmit role that no response matched.
    ReadFailed { index: usize },
    /// The response belongs to another request: notify the transmit role
    /// that no response matched. Nothing is decoded or published.
    Mismatch { index: usize },
    /// The response matched: notify the transmit role, then publish the
    /// decoded raw value, or report why it could not be decoded.
    Matched { index: usize, decoded: Result<u64, DecodeError> },
    /// The event does not belong to the current phase; nothing to do.
    Nothing,
    /// Stop: no further transport access.
    Shutdown,
}

/// The response starts with the expected prefix.
pub open spec fn prefix_matches(response: Seq<u8>, prefix: Seq<u8>) -> bool {
    prefix.len() <= response.len() && response.subrange(0, prefix.len() as int) == prefix
}

/// What a finished read of entry `index` leads to.
pub open spec fn read_outcome(
    index: usize,
    entry: PidEntry,
    table: Map<Seq<char>, SignalLayout>,
    response: Option<Vec<u8>>,
) -> RxAction {
    match response {
        None => RxAction::ReadFailed { index },
        Some(bytes) => if prefix_matches(bytes@, entry.response_pid@) {
            RxAction::Matched {
                index,
                decoded: decode_result(table, entry.dbc_signal_name@, bytes@),
            }
        } else {
            RxAction::Mismatch { index }
        },
    }
}

/// An index being read names an entry of the table.
pub open spec fn rx_fits(p: RxPhase, pid_table: Seq<PidEntry>) -> bool {
    match p {
        RxPhase::Reading { index } => index < pid_table.len(),
        _ => true,
    }
}

/// The receive role's transition on one event.
pub open spec fn rx_step(
    p: RxPhase,
    pid_table: Seq<PidEntry>,
    table: Map<Seq<char>, SignalLayout>,
    e: RxEvent,
) -> (RxPhase, RxAction) {
    match p {
        RxPhase::Stopped => (p, RxAction::Shutdown),
        _ => match e {
            RxEvent::ChannelClosed => (RxPhase::Stopped, RxAction::Shutdown),
            RxEvent::IndexReceived { index } => match p {
                RxPhase::Waiting => if index < pid_table.len() {
                    (
                        RxPhase::Reading { index },
                        RxAction::Read { index, delay_ms: pid_table[index as int].response_timeout_ms },
                    )
                } else {
                    (RxPhase::Waiting, RxAction::InvalidIndex { index })
                },
                _ => (p, RxAction::Nothing),
            },
            RxEvent::ReadDone { response } => match p {
                RxPhase::Reading { index } => (
                    RxPhase::Waiting,
                    read_outcome(index, pid_table[index as int], table, response),
                ),
                _ => (p, RxAction::Nothing),
            },
        },
    }
}

/// Whether `response` starts with `prefix`.
pub fn has_prefix(response: &[u8], prefix: &[u8]) -> (r: bool)
    ensures
        r == prefix_matches(response@, prefix@),
{
    if prefix.len() > response.len() {
        return false;
    }
    let mut i: usize = 0;
    while i < prefix.len()
        invariant
            prefix@.len() <= response@.len(),
            i <= prefix@.len(),
            forall|j: int| 0 <= j < i ==> response@[j] == prefix@[j],
        decreases prefix@.len() - i,
    {
        if response[i] != prefix[i] {
            assert(response@.subrange(0, prefix@.len() as int)[i as int] != prefix@[i as int]);
            return false;
        }
        i += 1;
    }
    assert(response@.subrange(0, prefix@.len() as int) =~= prefix@);
    true
}

/// The receive role.
pub struct ReceiveRole {
    phase: RxPhase,
}

impl View for ReceiveRole {
    type V = RxPhase;

    closed spec fn view(&self) -> RxPhase {
        self.phase
    }
}

impl ReceiveRole {
    /// Starts waiting for the first index.
    pub fn new() -> (r: ReceiveRole)
        ensures
            r@ == RxPhase::Waiting,
    {
        ReceiveRole { phase: RxPhase::Waiting }
    }

    /// The current phase.
    pub fn phase(&self) -> (r: RxPhase)
        ensures
            r == self@,
    {
        self.phase
    }

    /// Advances the role by one event and returns the next action.
    pub fn step(&mut self, pid_table: &Vec<PidEntry>, decoder: &Decoder, event: RxEvent) -> (r: RxAction)
        requires
            rx_fits(old(self)@, pid_table@),
        ensures
            rx_fits(final(self)@, pid_table@),
            (final(self)@, r) == rx_step(old(self)@, pid_table@, decoder@, event),
    {
        match self.phase {
            RxPhase::Stopped => RxAction::Shutdown,
            RxPhase::Waiting => match event {
                RxEvent::ChannelClosed => {
                    self.phase = RxPhase::Stopped;
                    RxAction::Shutdown
                },
                RxEvent::IndexReceived { index } => {
                    if index < pid_table.len() {
                        self.phase = RxPhase::Reading { index };
                        RxAction::Read { index, delay_ms: pid_table[index].response_timeout_ms }
                    } else {
                        RxAction::InvalidIndex { index }
                    }
                },
                RxEvent::ReadDone { .. } => RxAction::Nothing,
            },
            RxPhase::Reading { index } => match event {
                RxEvent::ChannelClosed => {
                    self.phase = RxPhase::Stopped;
                    RxAction::Shutdown
                },
                RxEvent::IndexReceived { .. } => RxAction::Nothing,
                RxEvent::ReadDone { response } => {
                    self.phase = RxPhase::Waiting;
                    let entry = &pid_table[index];
                    match response {
                        None => RxAction::ReadFailed { index },
                        Some(bytes) => {
                            if has_prefix(bytes.as_slice(), entry.response_pid.as_slice()) {
                                let decoded = decoder.decode_message_by_name(
                                    entry.dbc_signal_name.as_str(),
                                    bytes.as_slice(),
                                );
                                RxAction::Matched { index, decoded }
                            } else {
                                RxAction::Mismatch { index }
                            }
                        },
                    }
                },
            },
        }
    }
}


/// A response whose leading bytes differ from the entry's response prefix
/// is never decoded nor published: the role only reports the mismatch.
pub proof fn mismatch_is_never_decoded(
    index: usize,
    pid_table: Seq<PidEntry>,
    table: Map<Seq<char>, SignalLayout>,
    response: Vec<u8>,
)
    requires
        index < pid_table.len(),
        !prefix_matches(response@, pid_table[index as int].response_pid@),
    ensures
        rx_step(
            RxPhase::Reading { index },
            pid_table,
            table,
            RxEvent::ReadDone { response: Some(response) },
        ) == (RxPhase::Waiting, RxAction::Mismatch { index }),
{
}

/// Actions of the receive role over a sequence of events.
pub open spec fn rx_run(
    p: RxPhase,
    pid_table: Seq<PidEntry>,
    table: Map<Seq<char>, SignalLayout>,
    events: Seq<RxEvent>,
) -> Seq<RxAction>
    decreases events.len(),
{
    if events.len() == 0 {
        Seq::empty()
    } else {
        let (next, a) = rx_step(p, pid_table, table, events[0]);
        seq![a] + rx_run(next, pid_table, table, events.drop_first())
    }
}

proof fn lemma_rx_stopped_run(
    pid_table: Seq<PidEntry>,
    table: Map<Seq<char>, SignalLayout>,
    events: Seq<RxEvent>,
)
    ensures
        rx_run(RxPhase::Stopped, pid_table, table, events).len() == events.len(),
        forall|k: int|
            0 <= k < events.len() ==> rx_run(RxPhase::Stopped, pid_table, table, events)[k]
                == RxAction::Shutdown,
    decreases events.len(),
{
    if events.len() > 0 {
        lemma_rx_stopped_run(pid_table, table, events.drop_first());
        let rest = rx_run(RxPhase::Stopped, pid_table, table, events.drop_first());
        assert forall|k: int| 0 <= k < events.len() implies rx_run(
            RxPhase::Stopped,
            pid_table,
            table,
            events,
        )[k] == RxAction::Shutdown by {
            if k > 0 {
                assert((seq![RxAction::Shutdown] + rest)[k] == rest[k - 1]);
            }
        }
    }
}

/// Once a notification channel closes, the receive role answers every
/// later event with `Shutdown`: it never touches the transport again.
pub proof fn closed_channel_ends_receive_role(
    p: RxPhase,
    pid_table: Seq<PidEntry>,
    table: Map<Seq<char>, SignalLayout>,
    events: Seq<RxEvent>,
)
    ensures
        forall|k: int|
            0 <= k < events.len() + 1 ==> rx_run(
                p,
                pid_table,
                table,
                seq![RxEvent::ChannelClosed] + events,
            )[k] == RxAction::Shutdown,
{
    let all = seq![RxEvent::ChannelClosed] + events;
    assert(all.drop_first() =~= events);
    lemma_rx_stopped_run(pid_table, table, events);
    let rest = rx_run(RxPhase::Stopped, pid_table, table, events);
    assert forall|k: int| 0 <= k < events.len() + 1 implies rx_run(p, pid_table, table, all)[k]
        == RxAction::Shutdown by {
        if k > 0 {
            assert((seq![RxAction::Shutdown] + rest)[k] == rest[k - 1]);
        }
    }
}

} // verus!
