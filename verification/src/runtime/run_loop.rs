//! The decisions of the agent's run loop, one outside step at a time: the
//! caller performs the command a transition gives (runs middlewares, calls
//! the provider, executes tool calls) and hands back what came of it.
use vstd::prelude::*;

use crate::runtime::protocol::RunStatus;
use crate::text::owned;

verus! {

/// Where a run stands: what it waits for.
#[derive(Debug, Clone, Copy, PartialEq, Eq, Structural)]
pub enum RunPhase {
    /// Nothing asked yet.
    Idle,
    /// The middlewares' `before_run` hooks run.
    BeforeRun,
    /// The middlewares' `before_provider_step` hooks run.
    BeforeStep,
    /// The provider answers the step.
    AwaitProvider,
    /// The hooks run again, with summarization forced, after the context
    /// overflowed.
    BeforeRetry,
    /// The middlewares patch the provider's step.
    Patching,
    /// Tool calls run.
    Calls,
    /// The final text is checked against the structured output schema.
    Structured,
    /// A resumed call, and the calls that waited behind it, run.
    Resuming,
    /// The run ended.
    Done,
}

/// The kinds of step a provider returns.
#[derive(Debug, Clone, Copy, PartialEq, Eq, Structural)]
pub enum StepKind {
    AssistantMessage,
    AssistantMessageWithToolCalls,
    FinalText,
    ToolCalls,
    Error,
}

/// What a provider call came to.
#[derive(Debug, Clone, Copy, PartialEq, Eq, Structural)]
pub enum ProviderOutcome {
    /// A step; `context_overflow` when it is an error with that code.
    Step { kind: StepKind, context_overflow: bool },
    ProviderFailed,
    PromptCacheFailed,
    TimedOut,
}

/// A human's answer to an interrupted tool call.
#[derive(Debug, Clone, Copy, PartialEq, Eq, Structural)]
pub enum ResumeDecision {
    Approve,
    Reject,
    /// New arguments; `args_valid` when they pass the tool's edit check.
    Edit { args_valid: bool },
}

/// What the caller hands back.
#[derive(Debug, Clone, Copy, PartialEq, Eq, Structural)]
pub enum RunnerEvent {
    /// A run is asked for.
    Start,
    /// The hooks of the current phase ran, or one failed.
    MiddlewareDone { ok: bool },
    ProviderReturned { outcome: ProviderOutcome },
    /// The patched step's kind, `None` when a patch hook failed.
    Patched { kind: Option<StepKind> },
    /// The tool calls ran; `interrupted` when one waits for a human decision.
    CallsDone { interrupted: bool },
    StructuredOutputChecked { ok: bool },
    /// A resume is asked for; `matches_pending` when its interrupt id is
    /// that of the pending interrupt.
    Resume { matches_pending: bool, decision: ResumeDecision },
}

/// Why a run ended.
#[derive(Debug, Clone, Copy, PartialEq, Eq, Structural)]
pub enum FinishReason {
    InterruptPending,
    MiddlewareBeforeRunError,
    MiddlewareBeforeProviderStepError,
    ProviderError,
    PromptCacheError,
    ProviderTimeout,
    MiddlewarePatchProviderStepError,
    Interrupt,
    StructuredOutputInvalidResponse,
    FinalText,
    ProviderStepError,
    MaxStepsExceeded,
    InterruptNotFound,
    InvalidResume,
}

/// What the caller does next.
#[derive(Debug, Clone, Copy, PartialEq, Eq, Structural)]
pub enum RunnerCommand {
    /// Normalize the messages and run the `before_run` hooks.
    RunBeforeRun,
    /// Run the `before_provider_step` hooks of step `step_index`.
    PrepareStep { step_index: u64 },
    CallProvider { step_index: u64 },
    /// Force summarization and run the `before_provider_step` hooks again.
    ForceSummarization { step_index: u64 },
    PatchStep,
    /// Run the calls, normalizing them first when `normalize`.
    ExecuteCalls { normalize: bool },
    CheckStructuredOutput,
    /// Run the pending call, with the edited arguments when `edited`, then
    /// the calls that waited behind it.
    ExecutePendingCall { edited: bool },
    /// Answer the pending call with its rejection, then run the calls that
    /// waited behind it.
    RejectPendingCall,
    /// End the run; `terminated_at_step` is the loop's step.
    Finish { status: RunStatus, reason: FinishReason, terminated_at_step: usize },
    /// The event does not fit the phase; nothing changes.
    Ignore,
}

/// A command, after recording the provider's assistant message when
/// `record_message`.
#[derive(Debug, Clone, Copy, PartialEq, Eq, Structural)]
pub struct RunnerAction {
    pub record_message: bool,
    pub command: RunnerCommand,
}

/// The run loop's state.
#[derive(Debug, Clone, Copy, PartialEq, Eq, Structural)]
pub struct RunnerState {
    pub phase: RunPhase,
    pub initialized: bool,
    /// A tool call waits for a human decision.
    pub pending_interrupt: bool,
    /// Steps of this run taken so far.
    pub loop_index: usize,
    pub max_steps: usize,
    /// Steps taken over the runner's life, the next step's index.
    pub step_counter: u64,
    /// The index of the step under way.
    pub event_step: u64,
    /// The step under way was already retried after a context overflow.
    pub retried: bool,
}

/// The text of a reason, as run events and traces carry it.
pub open spec fn reason_text(r: FinishReason) -> Seq<char> {
    match r {
        FinishReason::InterruptPending => "interrupt_pending"@,
        FinishReason::MiddlewareBeforeRunError => "middleware_before_run_error"@,
        FinishReason::MiddlewareBeforeProviderStepError => "middleware_before_provider_step_error"@,
        FinishReason::ProviderError => "provider_error"@,
        FinishReason::PromptCacheError => "prompt_cache_error"@,
        FinishReason::ProviderTimeout => "provider_timeout"@,
        FinishReason::MiddlewarePatchProviderStepError => "middleware_patch_provider_step_error"@,
        FinishReason::Interrupt => "interrupt"@,
        FinishReason::StructuredOutputInvalidResponse => "structured_output_invalid_response"@,
        FinishReason::FinalText => "final_text"@,
        FinishReason::ProviderStepError => "provider_step_error"@,
        FinishReason::MaxStepsExceeded => "max_steps_exceeded"@,
        FinishReason::InterruptNotFound => "interrupt_not_found"@,
        FinishReason::InvalidResume => "invalid_resume"@,
    }
}

impl FinishReason {
    pub fn as_text(&self) -> (r: String)
        ensures
            r@ == reason_text(*self),
    {
        match self {
            FinishReason::InterruptPending => owned("interrupt_pending"),
            FinishReason::MiddlewareBeforeRunError => owned("middleware_before_run_error"),
            FinishReason::MiddlewareBeforeProviderStepError => owned("middleware_before_provider_step_error"),
            FinishReason::ProviderError => owned("provider_error"),
            FinishReason::PromptCacheError => owned("prompt_cache_error"),
            FinishReason::ProviderTimeout => owned("provider_timeout"),
            FinishReason::MiddlewarePatchProviderStepError => owned("middleware_patch_provider_step_error"),
            FinishReason::Interrupt => owned("interrupt"),
            FinishReason::StructuredOutputInvalidResponse => owned("structured_output_invalid_response"),
            FinishReason::FinalText => owned("final_text"),
            FinishReason::ProviderStepError => owned("provider_step_error"),
            FinishReason::MaxStepsExceeded => owned("max_steps_exceeded"),
            FinishReason::InterruptNotFound => owned("interrupt_not_found"),
            FinishReason::InvalidResume => owned("invalid_resume"),
        }
    }
}

pub open spec fn act(record_message: bool, command: RunnerCommand) -> RunnerAction {
    RunnerAction { record_message, command }
}

pub open spec fn finished(s: RunnerState, status: RunStatus, reason: FinishReason, at: usize) -> (RunnerState, RunnerCommand) {
    (RunnerState { phase: RunPhase::Done, ..s }, RunnerCommand::Finish { status, reason, terminated_at_step: at })
}

/// The next step of the loop: prepare it while steps remain (its index is
/// the counter, which then moves on, saturating), else the run ends.
pub open spec fn begin_step(s: RunnerState) -> (RunnerState, RunnerCommand) {
    if s.loop_index < s.max_steps {
        let counter = if s.step_counter == u64::MAX { u64::MAX } else { (s.step_counter + 1) as u64 };
        (
            RunnerState { phase: RunPhase::BeforeStep, event_step: s.step_counter, step_counter: counter, ..s },
            RunnerCommand::PrepareStep { step_index: s.step_counter },
        )
    } else {
        finished(s, RunStatus::Error, FinishReason::MaxStepsExceeded, s.max_steps)
    }
}

/// The loop moves past a step that did not end the run.
pub open spec fn next_step(s: RunnerState) -> (RunnerState, RunnerCommand) {
    begin_step(RunnerState { loop_index: (s.loop_index + 1) as usize, ..s })
}

/// The run loop's transition: the next state and what the caller does.
pub open spec fn runner_transition(s: RunnerState, e: RunnerEvent) -> (RunnerState, RunnerAction) {
    let err = RunStatus::Error;
    let (t, c) = match (s.phase, e) {
        (RunPhase::Idle, RunnerEvent::Start) | (RunPhase::Done, RunnerEvent::Start) => if s.pending_interrupt {
            finished(s, RunStatus::Interrupted, FinishReason::InterruptPending, s.loop_index)
        } else if !s.initialized {
            (RunnerState { phase: RunPhase::BeforeRun, loop_index: 0, ..s }, RunnerCommand::RunBeforeRun)
        } else {
            begin_step(RunnerState { loop_index: 0, ..s })
        },
        (RunPhase::BeforeRun, RunnerEvent::MiddlewareDone { ok }) => if ok {
            begin_step(RunnerState { initialized: true, ..s })
        } else {
            finished(s, err, FinishReason::MiddlewareBeforeRunError, 0)
        },
        (RunPhase::BeforeStep, RunnerEvent::MiddlewareDone { ok }) => if ok {
            (RunnerState { phase: RunPhase::AwaitProvider, retried: false, ..s }, RunnerCommand::CallProvider { step_index: s.event_step })
        } else {
            finished(s, err, FinishReason::MiddlewareBeforeProviderStepError, s.loop_index)
        },
        (RunPhase::BeforeRetry, RunnerEvent::MiddlewareDone { ok }) => if ok {
            (RunnerState { phase: RunPhase::AwaitProvider, retried: true, ..s }, RunnerCommand::CallProvider { step_index: s.event_step })
        } else {
            finished(s, err, FinishReason::MiddlewareBeforeProviderStepError, s.loop_index)
        },
        (RunPhase::AwaitProvider, RunnerEvent::ProviderReturned { outcome }) => match outcome {
            ProviderOutcome::ProviderFailed => finished(s, err, FinishReason::ProviderError, s.loop_index),
            ProviderOutcome::PromptCacheFailed => finished(s, err, FinishReason::PromptCacheError, s.loop_index),
            ProviderOutcome::TimedOut => finished(s, err, FinishReason::ProviderTimeout, s.loop_index),
            ProviderOutcome::Step { kind, context_overflow } => if kind == StepKind::Error && context_overflow && !s.retried {
                (RunnerState { phase: RunPhase::BeforeRetry, ..s }, RunnerCommand::ForceSummarization { step_index: s.event_step })
            } else {
                (RunnerState { phase: RunPhase::Patching, ..s }, RunnerCommand::PatchStep)
            },
        },
        (RunPhase::Patching, RunnerEvent::Patched { kind }) => match kind {
            None => finished(s, err, FinishReason::MiddlewarePatchProviderStepError, s.loop_index),
            Some(StepKind::AssistantMessage) => next_step(s),
            Some(StepKind::AssistantMessageWithToolCalls) => (
                RunnerState { phase: RunPhase::Calls, ..s },
                RunnerCommand::ExecuteCalls { normalize: false },
            ),
            Some(StepKind::ToolCalls) => (RunnerState { phase: RunPhase::Calls, ..s }, RunnerCommand::ExecuteCalls { normalize: true }),
            Some(StepKind::FinalText) => (RunnerState { phase: RunPhase::Structured, ..s }, RunnerCommand::CheckStructuredOutput),
            Some(StepKind::Error) => finished(s, err, FinishReason::ProviderStepError, s.loop_index),
        },
        (RunPhase::Calls, RunnerEvent::CallsDone { interrupted }) => if interrupted {
            finished(RunnerState { pending_interrupt: true, ..s }, RunStatus::Interrupted, FinishReason::Interrupt, s.loop_index)
        } else {
            next_step(s)
        },
        (RunPhase::Structured, RunnerEvent::StructuredOutputChecked { ok }) => if ok {
            finished(s, RunStatus::Completed, FinishReason::FinalText, s.loop_index)
        } else {
            finished(s, err, FinishReason::StructuredOutputInvalidResponse, s.loop_index)
        },
        (RunPhase::Idle, RunnerEvent::Resume { matches_pending, decision })
        | (RunPhase::Done, RunnerEvent::Resume { matches_pending, decision }) => if !s.pending_interrupt || !matches_pending {
            finished(s, err, FinishReason::InterruptNotFound, s.loop_index)
        } else {
            let t = RunnerState { phase: RunPhase::Resuming, pending_interrupt: false, ..s };
            match decision {
                ResumeDecision::Approve => (t, RunnerCommand::ExecutePendingCall { edited: false }),
                ResumeDecision::Reject => (t, RunnerCommand::RejectPendingCall),
                ResumeDecision::Edit { args_valid } => if args_valid {
                    (t, RunnerCommand::ExecutePendingCall { edited: true })
                } else {
                    finished(s, err, FinishReason::InvalidResume, s.loop_index)
                },
            }
        },
        (RunPhase::Resuming, RunnerEvent::CallsDone { interrupted }) => if interrupted {
            finished(RunnerState { pending_interrupt: true, ..s }, RunStatus::Interrupted, FinishReason::Interrupt, s.loop_index)
        } else if !s.initialized {
            (RunnerState { phase: RunPhase::BeforeRun, loop_index: 0, ..s }, RunnerCommand::RunBeforeRun)
        } else {
            begin_step(RunnerState { loop_index: 0, ..s })
        },
        _ => (s, RunnerCommand::Ignore),
    };
    let record = match (s.phase, e) {
        (RunPhase::Patching, RunnerEvent::Patched { kind: Some(k) }) => k != StepKind::Error,
        _ => false,
    };
    (t, act(record, c))
}

impl RunnerState {
    /// A runner that has taken no step, allowed `max_steps` per run.
    pub fn new(max_steps: usize) -> (r: Self)
        ensures
            runner_wf(r),
            r == (RunnerState {
                phase: RunPhase::Idle,
                initialized: false,
                pending_interrupt: false,
                loop_index: 0,
                max_steps,
                step_counter: 0,
                event_step: 0,
                retried: false,
            }),
    {
        RunnerState {
            phase: RunPhase::Idle,
            initialized: false,
            pending_interrupt: false,
            loop_index: 0,
            max_steps,
            step_counter: 0,
            event_step: 0,
            retried: false,
        }
    }
}

fn finish_with(s: &RunnerState, status: RunStatus, reason: FinishReason, at: usize) -> (r: (RunnerState, RunnerCommand))
    ensures
        r == finished(*s, status, reason, at),
{
    (RunnerState { phase: RunPhase::Done, ..*s }, RunnerCommand::Finish { status, reason, terminated_at_step: at })
}

fn begin_step_exec(s: RunnerState) -> (r: (RunnerState, RunnerCommand))
    ensures
        r == begin_step(s),
{
    if s.loop_index < s.max_steps {
        let counter = if s.step_counter == u64::MAX { u64::MAX } else { s.step_counter + 1 };
        (
            RunnerState { phase: RunPhase::BeforeStep, event_step: s.step_counter, step_counter: counter, ..s },
            RunnerCommand::PrepareStep { step_index: s.step_counter },
        )
    } else {
        finish_with(&s, RunStatus::Error, FinishReason::MaxStepsExceeded, s.max_steps)
    }
}

/// A step is under way only while steps of the run remain.
pub open spec fn runner_wf(s: RunnerState) -> bool {
    match s.phase {
        RunPhase::Idle | RunPhase::BeforeRun | RunPhase::Done | RunPhase::Resuming => true,
        _ => s.loop_index < s.max_steps,
    }
}

/// One transition of the run loop, as [`runner_transition`] gives it.
pub fn runner_step(state: &RunnerState, event: RunnerEvent) -> (r: (RunnerState, RunnerAction))
    requires
        runner_wf(*state),
    ensures
        runner_wf(r.0),
        r == runner_transition(*state, event),
{
    let s = *state;
    let err = RunStatus::Error;
    let mut record = false;
    let (t, c) = match (s.phase, event) {
        (RunPhase::Idle, RunnerEvent::Start) | (RunPhase::Done, RunnerEvent::Start) => if s.pending_interrupt {
            finish_with(&s, RunStatus::Interrupted, FinishReason::InterruptPending, s.loop_index)
        } else if !s.initialized {
            (RunnerState { phase: RunPhase::BeforeRun, loop_index: 0, ..s }, RunnerCommand::RunBeforeRun)
        } else {
            begin_step_exec(RunnerState { loop_index: 0, ..s })
        },
        (RunPhase::BeforeRun, RunnerEvent::MiddlewareDone { ok }) => if ok {
            begin_step_exec(RunnerState { initialized: true, ..s })
        } else {
            finish_with(&s, err, FinishReason::MiddlewareBeforeRunError, 0)
        },
        (RunPhase::BeforeStep, RunnerEvent::MiddlewareDone { ok }) => if ok {
            (RunnerState { phase: RunPhase::AwaitProvider, retried: false, ..s }, RunnerCommand::CallProvider { step_index: s.event_step })
        } else {
            finish_with(&s, err, FinishReason::MiddlewareBeforeProviderStepError, s.loop_index)
        },
        (RunPhase::BeforeRetry, RunnerEvent::MiddlewareDone { ok }) => if ok {
            (RunnerState { phase: RunPhase::AwaitProvider, retried: true, ..s }, RunnerCommand::CallProvider { step_index: s.event_step })
        } else {
            finish_with(&s, err, FinishReason::MiddlewareBeforeProviderStepError, s.loop_index)
        },
        (RunPhase::AwaitProvider, RunnerEvent::ProviderReturned { outcome }) => match outcome {
            ProviderOutcome::ProviderFailed => finish_with(&s, err, FinishReason::ProviderError, s.loop_index),
            ProviderOutcome::PromptCacheFailed => finish_with(&s, err, FinishReason::PromptCacheError, s.loop_index),
            ProviderOutcome::TimedOut => finish_with(&s, err, FinishReason::ProviderTimeout, s.loop_index),
            ProviderOutcome::Step { kind, context_overflow } => if kind == StepKind::Error && context_overflow && !s.retried {
                (RunnerState { phase: RunPhase::BeforeRetry, ..s }, RunnerCommand::ForceSummarization { step_index: s.event_step })
            } else {
                (RunnerState { phase: RunPhase::Patching, ..s }, RunnerCommand::PatchStep)
            },
        },
        (RunPhase::Patching, RunnerEvent::Patched { kind }) => match kind {
            None => finish_with(&s, err, FinishReason::MiddlewarePatchProviderStepError, s.loop_index),
            Some(k) => {
                record = k != StepKind::Error;
                match k {
                    StepKind::AssistantMessage => begin_step_exec(RunnerState { loop_index: s.loop_index + 1, ..s }),
                    StepKind::AssistantMessageWithToolCalls => (
                        RunnerState { phase: RunPhase::Calls, ..s },
                        RunnerCommand::ExecuteCalls { normalize: false },
                    ),
                    StepKind::ToolCalls => (RunnerState { phase: RunPhase::Calls, ..s }, RunnerCommand::ExecuteCalls { normalize: true }),
                    StepKind::FinalText => (RunnerState { phase: RunPhase::Structured, ..s }, RunnerCommand::CheckStructuredOutput),
                    StepKind::Error => finish_with(&s, err, FinishReason::ProviderStepError, s.loop_index),
                }
            },
        },
        (RunPhase::Calls, RunnerEvent::CallsDone { interrupted }) => if interrupted {
            finish_with(&RunnerState { pending_interrupt: true, ..s }, RunStatus::Interrupted, FinishReason::Interrupt, s.loop_index)
        } else {
            begin_step_exec(RunnerState { loop_index: s.loop_index + 1, ..s })
        },
        (RunPhase::Structured, RunnerEvent::StructuredOutputChecked { ok }) => if ok {
            finish_with(&s, RunStatus::Completed, FinishReason::FinalText, s.loop_index)
        } else {
            finish_with(&s, err, FinishReason::StructuredOutputInvalidResponse, s.loop_index)
        },
        (RunPhase::Idle, RunnerEvent::Resume { matches_pending, decision })
        | (RunPhase::Done, RunnerEvent::Resume { matches_pending, decision }) => if !s.pending_interrupt || !matches_pending {
            finish_with(&s, err, FinishReason::InterruptNotFound, s.loop_index)
        } else {
            let t = RunnerState { phase: RunPhase::Resuming, pending_interrupt: false, ..s };
            match decision {
                ResumeDecision::Approve => (t, RunnerCommand::ExecutePendingCall { edited: false }),
                ResumeDecision::Reject => (t, RunnerCommand::RejectPendingCall),
                ResumeDecision::Edit { args_valid } => if args_valid {
                    (t, RunnerCommand::ExecutePendingCall { edited: true })
                } else {
                    finish_with(&s, err, FinishReason::InvalidResume, s.loop_index)
                },
            }
        },
        (RunPhase::Resuming, RunnerEvent::CallsDone { interrupted }) => if interrupted {
            finish_with(&RunnerState { pending_interrupt: true, ..s }, RunStatus::Interrupted, FinishReason::Interrupt, s.loop_index)
        } else if !s.initialized {
            (RunnerState { phase: RunPhase::BeforeRun, loop_index: 0, ..s }, RunnerCommand::RunBeforeRun)
        } else {
            begin_step_exec(RunnerState { loop_index: 0, ..s })
        },
        _ => (s, RunnerCommand::Ignore),
    };
    (t, RunnerAction { record_message: record, command: c })
}

/// A run ends exactly when a transition says `Finish`: every `Finish`
/// leaves the runner done, and a runner becomes done by no other command.
pub proof fn law_finish_ends_run(s: RunnerState, e: RunnerEvent)
    requires
        runner_wf(s),
    ensures
        runner_transition(s, e).1.command is Finish ==> runner_transition(s, e).0.phase == RunPhase::Done,
        s.phase != RunPhase::Done && runner_transition(s, e).0.phase == RunPhase::Done
            ==> runner_transition(s, e).1.command is Finish,
{
}

/// The step counter never goes back, and moves by at most one step per
/// transition.
pub proof fn law_step_counter_monotone(s: RunnerState, e: RunnerEvent)
    requires
        runner_wf(s),
    ensures
        s.step_counter <= runner_transition(s, e).0.step_counter <= s.step_counter + 1,
{
}

/// A resume with no interrupt pending, or for another interrupt, is
/// answered `interrupt_not_found` and changes nothing but ending the run.
pub proof fn law_resume_refused(s: RunnerState, matches_pending: bool, decision: ResumeDecision)
    requires
        s.phase == RunPhase::Idle || s.phase == RunPhase::Done,
        !s.pending_interrupt || !matches_pending,
    ensures
        runner_transition(s, RunnerEvent::Resume { matches_pending, decision }) == (
            RunnerState { phase: RunPhase::Done, ..s },
            RunnerAction {
                record_message: false,
                command: RunnerCommand::Finish {
                    status: RunStatus::Error,
                    reason: FinishReason::InterruptNotFound,
                    terminated_at_step: s.loop_index,
                },
            },
        ),
{
}

/// No step is taken beyond the run's allowance: a command to prepare a step
/// comes only while the run's step count is below `max_steps`.
pub proof fn law_steps_bounded(s: RunnerState, e: RunnerEvent)
    requires
        runner_wf(s),
    ensures
        runner_transition(s, e).1.command is PrepareStep ==> runner_transition(s, e).0.loop_index
            < runner_transition(s, e).0.max_steps,
        runner_transition(s, e).0.max_steps == s.max_steps,
{
}

} // verus!
