use promise_gui::supervisor::{
    mirror_line, AnalysisProcess, ProcessSlot, SetupProcess, SlotState, SpawnOutcome, Stream,
};

#[test]
fn second_start_is_rejected_and_keeps_the_first_job() {
    let mut slot = ProcessSlot::new();
    assert!(slot.claim());
    assert!(slot.record_spawn(41) == SpawnOutcome::Recorded);
    assert!(!slot.claim());
    assert!(slot.state == SlotState::Running { pid: 41 });
}

#[test]
fn claim_while_spawning_is_rejected() {
    let mut slot = ProcessSlot::new();
    assert!(slot.claim());
    assert!(!slot.claim());
    assert!(slot.state == SlotState::Starting { cancel_requested: false });
}

#[test]
fn cancel_when_idle_is_a_no_op() {
    let mut slot = ProcessSlot::new();
    assert_eq!(slot.cancel(), None);
    assert!(slot.state == SlotState::Idle);
}

#[test]
fn cancel_returns_the_running_process_and_frees_the_slot() {
    let mut slot = ProcessSlot::new();
    slot.claim();
    slot.record_spawn(7);
    assert_eq!(slot.cancel(), Some(7));
    assert!(slot.state == SlotState::Idle);
    assert!(slot.claim());
}

#[test]
fn cancel_during_spawn_terminates_the_new_process() {
    let mut slot = ProcessSlot::new();
    slot.claim();
    assert_eq!(slot.cancel(), None);
    assert!(slot.record_spawn(9) == SpawnOutcome::TerminateNow { pid: 9 });
    assert!(slot.state == SlotState::Idle);
}

#[test]
fn finish_clears_only_its_own_job() {
    let mut slot = ProcessSlot::new();
    slot.claim();
    slot.record_spawn(5);
    assert!(!slot.finish(6));
    assert!(slot.state == SlotState::Running { pid: 5 });
    assert!(slot.finish(5));
    assert!(slot.state == SlotState::Idle);
}

#[test]
fn failed_spawn_frees_the_slot() {
    let mut slot = ProcessSlot::new();
    slot.claim();
    slot.abandon_start();
    assert!(slot.state == SlotState::Idle);
}

#[test]
fn analysis_and_setup_slots_are_independent() {
    let mut a = AnalysisProcess::new();
    let mut s = SetupProcess::new();
    assert!(a.child.claim());
    assert!(s.child.claim());
}

#[test]
fn mirrored_lines_are_tagged_by_stream() {
    assert_eq!(mirror_line(Stream::Stderr, "x"), "[stderr] x");
    assert_eq!(mirror_line(Stream::Stdout, "y"), "[stdout] y");
}

#[test]
fn finish_after_cancel_reports_the_cancel() {
    let mut slot = ProcessSlot::new();
    slot.claim();
    slot.record_spawn(12);
    assert_eq!(slot.cancel(), Some(12));
    assert!(!slot.finish(12));
    assert!(slot.state == SlotState::Idle);
}
