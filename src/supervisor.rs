//! The process supervisor's decisions: the single slot that holds the running
//! job's process identifier, and the events that each output line and the
//! process's exit produce. The caller spawns, reads and waits; it asks this
//! module what to record, what to signal and what to emit.
use vstd::prelude::*;
use crate::progress::{
    iteration_prefix, parse_progress, parse_progress_line, starting_message, stepwise_total,
    total_prefix, ProgressEvent, ProgressModel,
};
use crate::text::{
    all_digits, all_ws, digits_value, is_ws, lemma_find_char_at, lemma_parse_digits,
    lemma_trim_padded_digits, starts_with,
};

verus! {

/// Where the single job slot stands.
#[derive(PartialEq, Eq, Structural)]
pub enum SlotState {
    /// No job: a start may claim the slot.
    Idle,
    /// A start has claimed the slot and is spawning; a cancel that comes
    /// meanwhile is remembered.
    Starting { cancel_requested: bool },
    /// A job runs as the process with this identifier.
    Running { pid: u32 },
}

/// The single slot for one category of job. Every access goes through the
/// caller's lock, so that a cancel never sees a half-recorded process.
pub struct ProcessSlot {
    pub state: SlotState,
}

/// What the starter does with the process it has just spawned.
#[derive(PartialEq, Eq, Structural)]
pub enum SpawnOutcome {
    /// The process is recorded as the running job.
    Recorded,
    /// A cancel came while spawning: terminate this process at once.
    TerminateNow { pid: u32 },
}

impl ProcessSlot {
    pub fn new() -> (r: ProcessSlot)
        ensures
            r.state == SlotState::Idle,
    {
        ProcessSlot { state: SlotState::Idle }
    }

    pub open spec fn is_idle(&self) -> bool {
        self.state == SlotState::Idle
    }

    /// Claims the slot for a new job. A slot that holds a job, running or
    /// being started, rejects the claim and keeps that job.
    pub fn claim(&mut self) -> (r: bool)
        ensures
            r == old(self).is_idle(),
            r ==> final(self).state == (SlotState::Starting { cancel_requested: false }),
            !r ==> *final(self) == *old(self),
    {
        match self.state {
            SlotState::Idle => {
                self.state = SlotState::Starting { cancel_requested: false };
                true
            },
            _ => false,
        }
    }

    /// Records the process spawned for the claimed slot.
    pub fn record_spawn(&mut self, pid: u32) -> (r: SpawnOutcome)
        requires
            old(self).state is Starting,
        ensures
            !old(self).state->cancel_requested ==> r == SpawnOutcome::Recorded
                && final(self).state == (SlotState::Running { pid }),
            old(self).state->cancel_requested ==> r == (SpawnOutcome::TerminateNow { pid })
                && final(self).state == SlotState::Idle,
    {
        match self.state {
            SlotState::Starting { cancel_requested } => {
                if cancel_requested {
                    self.state = SlotState::Idle;
                    SpawnOutcome::TerminateNow { pid }
                } else {
                    self.state = SlotState::Running { pid };
                    SpawnOutcome::Recorded
                }
            },
            _ => SpawnOutcome::Recorded,
        }
    }

    /// Gives the slot back after the spawn failed: no job was created.
    pub fn abandon_start(&mut self)
        requires
            old(self).state is Starting,
        ensures
            final(self).state == SlotState::Idle,
    {
        self.state = SlotState::Idle;
    }

    /// Cancels the job in the slot. Returns the process to terminate, if one
    /// runs, and clears the slot; a cancel during a spawn is remembered; with
    /// no job, nothing changes and nothing is to be signalled.
    pub fn cancel(&mut self) -> (r: Option<u32>)
        ensures
            old(self).state == SlotState::Idle ==> r is None && *final(self) == *old(self),
            old(self).state is Running ==> r == Some(old(self).state->pid)
                && final(self).state == SlotState::Idle,
            old(self).state is Starting ==> r is None
                && final(self).state == (SlotState::Starting { cancel_requested: true }),
    {
        match self.state {
            SlotState::Idle => None,
            SlotState::Running { pid } => {
                self.state = SlotState::Idle;
                Some(pid)
            },
            SlotState::Starting { .. } => {
                self.state = SlotState::Starting { cancel_requested: true };
                None
            },
        }
    }

    /// The job run by `pid` has ended. The slot is cleared if it still holds
    /// that job; a job started since is left alone. Returns whether the slot
    /// still held it, which is false when the job was cancelled.
    pub fn finish(&mut self, pid: u32) -> (r: bool)
        ensures
            r == (old(self).state == (SlotState::Running { pid })),
            r ==> final(self).state == SlotState::Idle,
            !r ==> *final(self) == *old(self),
    {
        match self.state {
            SlotState::Running { pid: p } => {
                if p == pid {
                    self.state = SlotState::Idle;
                    true
                } else {
                    false
                }
            },
            _ => false,
        }
    }
}

/// The slot for analysis jobs.
pub struct AnalysisProcess {
    pub child: ProcessSlot,
}

/// The slot for setup steps, apart from the analysis slot.
pub struct SetupProcess {
    pub child: ProcessSlot,
}

impl AnalysisProcess {
    pub fn new() -> (r: AnalysisProcess)
        ensures
            r.child.state == SlotState::Idle,
    {
        AnalysisProcess { child: ProcessSlot::new() }
    }
}

impl SetupProcess {
    pub fn new() -> (r: SetupProcess)
        ensures
            r.child.state == SlotState::Idle,
    {
        SetupProcess { child: ProcessSlot::new() }
    }
}

/// Which of the process's two output streams a line came from.
#[derive(PartialEq, Eq, Structural, Clone, Copy)]
pub enum Stream {
    Stdout,
    Stderr,
}

/// What subscribers receive.
pub enum JobEvent {
    /// One line of raw output.
    Log(String),
    /// A progress marker recognised in a line.
    Progress(ProgressEvent),
    /// The process exited; `code` is absent when it was ended by a signal.
    Complete { success: bool, code: Option<i32> },
    /// The wait for the process failed.
    Error(String),
}

/// An event as plain values.
pub enum JobEventModel {
    Log(Seq<char>),
    Progress(ProgressModel),
    Complete { success: bool, code: Option<i32> },
    Error(Seq<char>),
}

impl View for JobEvent {
    type V = JobEventModel;

    open spec fn view(&self) -> JobEventModel {
        match self {
            JobEvent::Log(s) => JobEventModel::Log(s@),
            JobEvent::Progress(p) => JobEventModel::Progress(p@),
            JobEvent::Complete { success, code } => JobEventModel::Complete {
                success: *success,
                code: *code,
            },
            JobEvent::Error(m) => JobEventModel::Error(m@),
        }
    }
}

/// The events for one line of either stream: its progress event, if the line
/// carries one, then the line itself.
pub open spec fn line_events_spec(line: Seq<char>) -> Seq<JobEventModel> {
    match parse_progress(line) {
        Some(p) => seq![JobEventModel::Progress(p), JobEventModel::Log(line)],
        None => seq![JobEventModel::Log(line)],
    }
}

pub open spec fn events_view(v: Seq<JobEvent>) -> Seq<JobEventModel> {
    Seq::new(v.len(), |i: int| v[i]@)
}

/// The events for one line of output, in the order they are emitted.
pub fn line_events(line: &str) -> (r: Vec<JobEvent>)
    ensures
        events_view(r@) == line_events_spec(line@),
{
    let mut r: Vec<JobEvent> = Vec::new();
    match parse_progress_line(line) {
        Some(p) => {
            r.push(JobEvent::Progress(p));
        },
        None => {},
    }
    r.push(JobEvent::Log(String::from_str(line)));
    assert(events_view(r@) =~= line_events_spec(line@));
    r
}

/// The line written to the run's log file: the line tagged by its stream.
pub fn mirror_line(stream: Stream, line: &str) -> (r: String)
    ensures
        r@ == (match stream {
            Stream::Stdout => "[stdout] "@,
            Stream::Stderr => "[stderr] "@,
        }) + line@,
{
    let mut r = match stream {
        Stream::Stdout => String::from_str("[stdout] "),
        Stream::Stderr => String::from_str("[stderr] "),
    };
    r.append(line);
    r
}

/// The terminal event, from what the wait for the process gave: its success
/// and exit code, or the reason the wait failed.
pub fn exit_event(wait: Result<(bool, Option<i32>), String>) -> (r: JobEvent)
    ensures
        match wait {
            Ok((success, code)) => r@ == (JobEventModel::Complete { success, code }),
            Err(m) => r@ == JobEventModel::Error(m@),
        },
{
    match wait {
        Ok((success, code)) => JobEvent::Complete { success, code },
        Err(m) => JobEvent::Error(m),
    }
}

/// The line that announces the total on the error stream gives exactly one
/// progress event, of kind `total` with total 100, and then the line itself.
pub proof fn lemma_total_marker_events()
    ensures
        line_events_spec("STEPWISE_LOG:Total iterations: 100 , Variables: 293"@) == seq![
            JobEventModel::Progress(("total"@, 0u32, 100u32, starting_message(100))),
            JobEventModel::Log("STEPWISE_LOG:Total iterations: 100 , Variables: 293"@),
        ],
{
    let line = "STEPWISE_LOG:Total iterations: 100 , Variables: 293"@;
    reveal_strlit("STEPWISE_LOG:Total iterations: 100 , Variables: 293");
    reveal_strlit("STEPWISE_LOG:Iteration ");
    reveal_strlit("STEPWISE_LOG:Total iterations:");
    assert(!starts_with(line, iteration_prefix())) by {
        if starts_with(line, iteration_prefix()) {
            assert(line.subrange(0, iteration_prefix().len() as int)[13] == line[13]);
        }
    }
    assert(line.subrange(0, total_prefix().len() as int) =~= total_prefix());
    let rest = line.subrange(total_prefix().len() as int, line.len() as int);
    assert(rest[5] == ',');
    assert forall|j: int| 0 <= j < 5 implies rest[j] != ',' by {}
    lemma_find_char_at(rest, ',', 5);
    let w = seq![' '];
    let d = seq!['1', '0', '0'];
    assert(rest.subrange(0, 5) =~= w + d + w);
    assert(is_ws(' '));
    assert(all_ws(w));
    assert(all_digits(d));
    assert(d.drop_last() =~= seq!['1', '0']);
    assert(seq!['1', '0'].drop_last() =~= seq!['1']);
    assert(seq!['1'].drop_last() =~= Seq::<char>::empty());
    assert(digits_value(Seq::<char>::empty()) == 0);
    assert(digits_value(seq!['1']) == 1);
    assert(digits_value(seq!['1', '0']) == 10);
    assert(digits_value(d) == 100);
    lemma_trim_padded_digits(w, d, w);
    lemma_parse_digits(d);
    assert(stepwise_total(rest) == Some(("total"@, 0u32, 100u32, starting_message(100))));
}

} // verus!
