use can_protocol_adapter::config::{PidEntry, VssSignal};
use can_protocol_adapter::decoder::{DecodeError, Decoder};
use can_protocol_adapter::receive::{has_prefix, ReceiveRole, RxAction, RxEvent, RxPhase};
use can_protocol_adapter::schedule::{PollScheduler, TxAction, TxEvent, TxPhase};
use can_protocol_adapter::signal::{ByteOrder, SignalLayout};

fn entry(request: Vec<u8>, response: Vec<u8>, interval_ms: u32, signal: &str) -> PidEntry {
    PidEntry {
        request_pid: request,
        response_pid: response,
        response_timeout_ms: 20,
        description: String::new(),
        expected_response_length: 4,
        interval_ms,
        dbc_signal_name: signal.to_string(),
        vss_signal: VssSignal {
            signal_name: "Vehicle.Speed".to_string(),
            datatype: "float".to_string(),
            unit: "km/h".to_string(),
        },
    }
}

fn two_entries() -> Vec<PidEntry> {
    vec![
        entry(vec![0x02, 0x01, 0x0C], vec![0x02, 0x01], 100, "EngineSpeed"),
        entry(vec![0x02, 0x01, 0x0D], vec![0x02, 0x02], 50, "VehicleSpeed"),
    ]
}

#[test]
fn entries_are_first_due_one_interval_after_start() {
    let s = PollScheduler::new(&two_entries(), 1000, 1000);
    assert_eq!(s.next_due(0), 1100);
    assert_eq!(s.next_due(1), 1050);
    assert_eq!(s.phase(), TxPhase::Idle);
}

#[test]
fn nothing_is_written_before_an_entry_is_due() {
    let mut s = PollScheduler::new(&two_entries(), 0, 1000);
    assert_eq!(s.step(TxEvent::Tick { now: 10 }), TxAction::WaitForTick);
    assert_eq!(s.phase(), TxPhase::Idle);
}

#[test]
fn due_entry_makes_a_full_round_trip() {
    let mut s = PollScheduler::new(&two_entries(), 0, 1000);
    assert_eq!(s.step(TxEvent::Tick { now: 60 }), TxAction::Write { index: 1 });
    assert_eq!(
        s.step(TxEvent::WriteDone { ok: true, now: 61 }),
        TxAction::AwaitResponse { index: 1, deadline: 1061 }
    );
    assert_eq!(s.step(TxEvent::ResponseReady { matched: true, now: 80 }), TxAction::WaitForTick);
    assert_eq!(s.next_due(1), 110);
    assert_eq!(s.next_due(0), 100);
}

#[test]
fn timeout_advances_from_the_request_time() {
    let mut s = PollScheduler::new(&two_entries(), 0, 1000);
    assert_eq!(s.step(TxEvent::Tick { now: 60 }), TxAction::Write { index: 1 });
    s.step(TxEvent::WriteDone { ok: true, now: 61 });
    assert_eq!(s.step(TxEvent::ResponseTimedOut { now: 1061 }), TxAction::WaitForTick);
    assert_eq!(s.next_due(1), 60 + 50);
}

#[test]
fn entries_are_visited_in_table_order() {
    let mut s = PollScheduler::new(&two_entries(), 0, 1000);
    assert_eq!(s.step(TxEvent::Tick { now: 200 }), TxAction::Write { index: 0 });
    s.step(TxEvent::WriteDone { ok: true, now: 201 });
    assert_eq!(s.step(TxEvent::ResponseReady { matched: false, now: 230 }), TxAction::Write { index: 1 });
    assert_eq!(s.next_due(0), 300);
    s.step(TxEvent::WriteDone { ok: true, now: 231 });
    assert_eq!(s.step(TxEvent::ResponseReady { matched: true, now: 240 }), TxAction::WaitForTick);
    assert_eq!(s.next_due(1), 280);
}

#[test]
fn failed_write_still_advances_the_entry() {
    let mut s = PollScheduler::new(&two_entries(), 0, 1000);
    assert_eq!(s.step(TxEvent::Tick { now: 200 }), TxAction::Write { index: 0 });
    assert_eq!(s.step(TxEvent::WriteDone { ok: false, now: 201 }), TxAction::Write { index: 1 });
    assert_eq!(s.next_due(0), 300);
}

#[test]
fn closed_channel_while_waiting_stops_the_transmit_role() {
    let mut s = PollScheduler::new(&two_entries(), 0, 1000);
    s.step(TxEvent::Tick { now: 60 });
    s.step(TxEvent::WriteDone { ok: true, now: 61 });
    assert_eq!(s.step(TxEvent::ChannelClosed), TxAction::Shutdown);
    assert_eq!(s.phase(), TxPhase::Stopped);
    assert_eq!(s.step(TxEvent::Tick { now: 10_000 }), TxAction::Shutdown);
    assert_eq!(s.step(TxEvent::WriteDone { ok: true, now: 10_001 }), TxAction::Shutdown);
}

#[test]
fn events_out_of_phase_change_nothing() {
    let mut s = PollScheduler::new(&two_entries(), 0, 1000);
    assert_eq!(s.step(TxEvent::ResponseTimedOut { now: 500 }), TxAction::Nothing);
    assert_eq!(s.next_due(0), 100);
    assert_eq!(s.phase(), TxPhase::Idle);
}

#[test]
fn due_times_saturate_at_the_end_of_time() {
    let s = PollScheduler::new(&two_entries(), u64::MAX - 10, 1000);
    assert_eq!(s.next_due(0), u64::MAX);
}

fn engine_decoder() -> Decoder {
    Decoder::new(vec![(
        "EngineSpeed".to_string(),
        SignalLayout { start_bit: 23, bit_width: 8, byte_order: ByteOrder::LittleEndian },
    )])
}

#[test]
fn matching_response_is_decoded() {
    let table = two_entries();
    let d = engine_decoder();
    let mut r = ReceiveRole::new();
    assert_eq!(r.step(&table, &d, RxEvent::IndexReceived { index: 0 }), RxAction::Read { index: 0, delay_ms: 20 });
    assert_eq!(r.phase(), RxPhase::Reading { index: 0 });
    let read = RxEvent::ReadDone { response: Some(vec![0x02, 0x01, 0x00, 0x64]) };
    assert_eq!(r.step(&table, &d, read), RxAction::Matched { index: 0, decoded: Ok(100) });
    assert_eq!(r.phase(), RxPhase::Waiting);
}

#[test]
fn mismatched_response_is_not_decoded() {
    let table = two_entries();
    let d = engine_decoder();
    let mut r = ReceiveRole::new();
    r.step(&table, &d, RxEvent::IndexReceived { index: 0 });
    let read = RxEvent::ReadDone { response: Some(vec![0x02, 0x02, 0x00, 0x64]) };
    assert_eq!(r.step(&table, &d, read), RxAction::Mismatch { index: 0 });
    r.step(&table, &d, RxEvent::IndexReceived { index: 0 });
    let short = RxEvent::ReadDone { response: Some(vec![0x02]) };
    assert_eq!(r.step(&table, &d, short), RxAction::Mismatch { index: 0 });
}

#[test]
fn matched_response_of_unknown_signal_reports_the_error() {
    let table = two_entries();
    let d = engine_decoder();
    let mut r = ReceiveRole::new();
    r.step(&table, &d, RxEvent::IndexReceived { index: 1 });
    let read = RxEvent::ReadDone { response: Some(vec![0x02, 0x02, 0x30]) };
    assert_eq!(r.step(&table, &d, read), RxAction::Matched { index: 1, decoded: Err(DecodeError::UnknownSignal) });
}

#[test]
fn read_error_and_bad_index_are_reported() {
    let table = two_entries();
    let d = engine_decoder();
    let mut r = ReceiveRole::new();
    assert_eq!(r.step(&table, &d, RxEvent::IndexReceived { index: 7 }), RxAction::InvalidIndex { index: 7 });
    assert_eq!(r.phase(), RxPhase::Waiting);
    r.step(&table, &d, RxEvent::IndexReceived { index: 1 });
    assert_eq!(r.step(&table, &d, RxEvent::ReadDone { response: None }), RxAction::ReadFailed { index: 1 });
}

#[test]
fn closed_channel_stops_the_receive_role() {
    let table = two_entries();
    let d = engine_decoder();
    let mut r = ReceiveRole::new();
    r.step(&table, &d, RxEvent::IndexReceived { index: 0 });
    assert_eq!(r.step(&table, &d, RxEvent::ChannelClosed), RxAction::Shutdown);
    assert_eq!(r.step(&table, &d, RxEvent::IndexReceived { index: 0 }), RxAction::Shutdown);
    assert_eq!(r.phase(), RxPhase::Stopped);
}

#[test]
fn prefix_comparison() {
    assert!(has_prefix(&[1, 2, 3], &[1, 2]));
    assert!(has_prefix(&[1, 2], &[]));
    assert!(!has_prefix(&[1], &[1, 2]));
    assert!(!has_prefix(&[1, 3, 3], &[1, 2]));
}
