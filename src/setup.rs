//! The setup pipeline: a fixed sequence of installation steps, run one at a
//! time. A step whose effect already holds is skipped; the first failing step
//! halts the pipeline; a cancel ends it. The caller runs each step's process
//! and reports what came of it.
use vstd::prelude::*;
use crate::backend::{strings_view, HostOs, LaunchCommand};
use crate::error::{with_details, AppError};

verus! {

/// The number of steps: install the runtime manager, materialize the managed
/// environment, install the required libraries.
pub const SETUP_STEPS: u32 = 3;

/// Where the pipeline stands.
#[derive(PartialEq, Eq, Structural, Clone, Copy)]
pub enum PipelineState {
    Pending,
    Running { step: u32 },
    Succeeded,
    Failed { step: u32 },
    Cancelled { step: u32 },
}

/// What came of the active step.
#[derive(PartialEq, Eq, Structural, Clone, Copy)]
pub enum StepResult {
    /// The pre-check found that the step's effect already holds.
    Skipped,
    /// The step's process exited, successfully or not.
    Exited { success: bool },
    /// The step's process could not be started.
    SpawnFailed,
    /// The step's process was cancelled.
    Cancelled,
}

/// Starts the pipeline at its first step.
pub fn start_pipeline(state: PipelineState) -> (r: PipelineState)
    ensures
        state == PipelineState::Pending ==> r == (PipelineState::Running { step: 0 }),
        state != PipelineState::Pending ==> r == state,
{
    match state {
        PipelineState::Pending => PipelineState::Running { step: 0 },
        _ => state,
    }
}

/// The state after the active step ends with `result`. Terminal states stay.
pub open spec fn advance_spec(state: PipelineState, result: StepResult) -> PipelineState {
    match state {
        PipelineState::Running { step } => match result {
            StepResult::Skipped | StepResult::Exited { success: true } => if step + 1
                < SETUP_STEPS {
                PipelineState::Running { step: (step + 1) as u32 }
            } else {
                PipelineState::Succeeded
            },
            StepResult::Exited { success: false } | StepResult::SpawnFailed => PipelineState::Failed {
                step,
            },
            StepResult::Cancelled => PipelineState::Cancelled { step },
        },
        _ => state,
    }
}

pub fn advance(state: PipelineState, result: StepResult) -> (r: PipelineState)
    ensures
        r == advance_spec(state, result),
{
    match state {
        PipelineState::Running { step } => match result {
            StepResult::Skipped | StepResult::Exited { success: true } => {
                if step < SETUP_STEPS - 1 {
                    PipelineState::Running { step: step + 1 }
                } else {
                    PipelineState::Succeeded
                }
            },
            StepResult::Exited { success: false } | StepResult::SpawnFailed => {
                PipelineState::Failed { step }
            },
            StepResult::Cancelled => PipelineState::Cancelled { step },
        },
        _ => state,
    }
}

pub open spec fn is_terminal(state: PipelineState) -> bool {
    state is Succeeded || state is Failed || state is Cancelled
}

/// Once the pipeline has succeeded, failed or been cancelled, no step result
/// moves it: a failed step halts it and nothing is rolled back or re-run.
pub proof fn lemma_terminal_states_stay(state: PipelineState, result: StepResult)
    requires
        is_terminal(state),
    ensures
        advance_spec(state, result) == state,
{
}

/// A running pipeline only moves forward: to the next step, or to an end.
pub proof fn lemma_running_moves_forward(step: u32, result: StepResult)
    requires
        step < SETUP_STEPS,
    ensures
        match advance_spec(PipelineState::Running { step }, result) {
            PipelineState::Running { step: next } => next == step + 1 && next < SETUP_STEPS,
            PipelineState::Failed { step: s } => s == step,
            PipelineState::Cancelled { step: s } => s == step,
            PipelineState::Succeeded => step + 1 == SETUP_STEPS,
            PipelineState::Pending => false,
        },
{
}

pub open spec fn step_message(step: u32) -> Seq<char> {
    if step == 0 {
        "Installing pixi..."@
    } else if step == 1 {
        "Installing R environment (this may take several minutes)..."@
    } else {
        "Installing R packages..."@
    }
}

/// The progress report for a step: its position counted from one, the number
/// of steps, and what it does.
pub fn step_progress(step: u32) -> (r: (u32, u32, String))
    requires
        step < SETUP_STEPS,
    ensures
        r.0 == step + 1,
        r.1 == SETUP_STEPS,
        r.2@ == step_message(step),
{
    let message = if step == 0 {
        String::from_str("Installing pixi...")
    } else if step == 1 {
        String::from_str("Installing R environment (this may take several minutes)...")
    } else {
        String::from_str("Installing R packages...")
    };
    (step + 1, SETUP_STEPS, message)
}

pub open spec fn step_failure_text(step: u32) -> Seq<char> {
    if step == 0 {
        "pixi installation failed"@
    } else if step == 1 {
        "pixi install failed"@
    } else {
        "R package installation failed"@
    }
}

/// The error that reports the failed step.
pub fn step_failure(step: u32) -> (r: AppError)
    requires
        step < SETUP_STEPS,
    ensures
        r@ == with_details("E007"@, "Environment setup failed."@, step_failure_text(step)),
{
    if step == 0 {
        AppError::setup_failed("pixi installation failed")
    } else if step == 1 {
        AppError::setup_failed("pixi install failed")
    } else {
        AppError::setup_failed("R package installation failed")
    }
}

/// The command of a step. The first installs the runtime manager with the
/// host's shell; the others run the manager, `manager` being its command.
pub open spec fn step_command_spec(step: u32, os: HostOs, manager: Seq<char>) -> (
    Seq<char>,
    Seq<Seq<char>>,
) {
    if step == 0 {
        if os == HostOs::Windows {
            (
                "powershell"@,
                seq![
                    "-ExecutionPolicy"@,
                    "ByPass"@,
                    "-Command"@,
                    "iwr -useb https://pixi.sh/install.ps1 | iex"@,
                ],
            )
        } else {
            ("bash"@, seq!["-c"@, "curl -fsSL https://pixi.sh/install.sh | bash"@])
        }
    } else if step == 1 {
        (manager, seq!["install"@])
    } else {
        (manager, seq!["run"@, "install-r-packages"@])
    }
}

pub fn step_command(step: u32, os: HostOs, manager: &str) -> (r: LaunchCommand)
    requires
        step < SETUP_STEPS,
    ensures
        r.program@ == step_command_spec(step, os, manager@).0,
        strings_view(r.args@) == step_command_spec(step, os, manager@).1,
        r.env@.len() == 0,
{
    let mut args: Vec<String> = Vec::new();
    let program;
    if step == 0 {
        if os == HostOs::Windows {
            program = String::from_str("powershell");
            args.push(String::from_str("-ExecutionPolicy"));
            args.push(String::from_str("ByPass"));
            args.push(String::from_str("-Command"));
            args.push(String::from_str("iwr -useb https://pixi.sh/install.ps1 | iex"));
        } else {
            program = String::from_str("bash");
            args.push(String::from_str("-c"));
            args.push(String::from_str("curl -fsSL https://pixi.sh/install.sh | bash"));
        }
    } else if step == 1 {
        program = String::from_str(manager);
        args.push(String::from_str("install"));
    } else {
        program = String::from_str(manager);
        args.push(String::from_str("run"));
        args.push(String::from_str("install-r-packages"));
    }
    assert(strings_view(args@) =~= step_command_spec(step, os, manager@).1);
    LaunchCommand { program, args, env: Vec::new() }
}

} // verus!
