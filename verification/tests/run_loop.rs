use deepagents::runtime::protocol::RunStatus;
use deepagents::runtime::run_loop::{
    runner_step, FinishReason, ProviderOutcome, ResumeDecision, RunPhase, RunnerCommand, RunnerEvent, RunnerState, StepKind,
};

fn step(s: &mut RunnerState, e: RunnerEvent) -> (bool, RunnerCommand) {
    let (t, a) = runner_step(s, e);
    *s = t;
    (a.record_message, a.command)
}

fn provider(kind: StepKind, overflow: bool) -> RunnerEvent {
    RunnerEvent::ProviderReturned { outcome: ProviderOutcome::Step { kind, context_overflow: overflow } }
}

#[test]
fn run_loop_tool_calls_then_final_text() {
    let mut s = RunnerState::new(3);
    assert_eq!(step(&mut s, RunnerEvent::Start), (false, RunnerCommand::RunBeforeRun));
    assert_eq!(step(&mut s, RunnerEvent::MiddlewareDone { ok: true }), (false, RunnerCommand::PrepareStep { step_index: 0 }));
    assert_eq!(step(&mut s, RunnerEvent::MiddlewareDone { ok: true }), (false, RunnerCommand::CallProvider { step_index: 0 }));
    assert_eq!(step(&mut s, provider(StepKind::Error, true)), (false, RunnerCommand::ForceSummarization { step_index: 0 }));
    assert_eq!(step(&mut s, RunnerEvent::MiddlewareDone { ok: true }), (false, RunnerCommand::CallProvider { step_index: 0 }));
    assert_eq!(step(&mut s, provider(StepKind::ToolCalls, false)), (false, RunnerCommand::PatchStep));
    assert_eq!(
        step(&mut s, RunnerEvent::Patched { kind: Some(StepKind::ToolCalls) }),
        (true, RunnerCommand::ExecuteCalls { normalize: true })
    );
    assert_eq!(step(&mut s, RunnerEvent::CallsDone { interrupted: false }), (false, RunnerCommand::PrepareStep { step_index: 1 }));
    assert_eq!(step(&mut s, RunnerEvent::MiddlewareDone { ok: true }), (false, RunnerCommand::CallProvider { step_index: 1 }));
    assert_eq!(step(&mut s, provider(StepKind::FinalText, false)), (false, RunnerCommand::PatchStep));
    assert_eq!(
        step(&mut s, RunnerEvent::Patched { kind: Some(StepKind::FinalText) }),
        (true, RunnerCommand::CheckStructuredOutput)
    );
    assert_eq!(
        step(&mut s, RunnerEvent::StructuredOutputChecked { ok: true }),
        (false, RunnerCommand::Finish { status: RunStatus::Completed, reason: FinishReason::FinalText, terminated_at_step: 1 })
    );
    assert_eq!(s.phase, RunPhase::Done);
    assert_eq!(s.step_counter, 2);
}

#[test]
fn run_loop_second_overflow_is_a_step_error() {
    let mut s = RunnerState::new(2);
    step(&mut s, RunnerEvent::Start);
    step(&mut s, RunnerEvent::MiddlewareDone { ok: true });
    step(&mut s, RunnerEvent::MiddlewareDone { ok: true });
    step(&mut s, provider(StepKind::Error, true));
    step(&mut s, RunnerEvent::MiddlewareDone { ok: true });
    assert_eq!(step(&mut s, provider(StepKind::Error, true)), (false, RunnerCommand::PatchStep));
    assert_eq!(
        step(&mut s, RunnerEvent::Patched { kind: Some(StepKind::Error) }),
        (
            false,
            RunnerCommand::Finish { status: RunStatus::Error, reason: FinishReason::ProviderStepError, terminated_at_step: 0 }
        )
    );
    assert_eq!(FinishReason::ProviderStepError.as_text(), "provider_step_error");
}

#[test]
fn run_loop_stops_after_max_steps() {
    let mut s = RunnerState::new(1);
    step(&mut s, RunnerEvent::Start);
    step(&mut s, RunnerEvent::MiddlewareDone { ok: true });
    step(&mut s, RunnerEvent::MiddlewareDone { ok: true });
    step(&mut s, provider(StepKind::AssistantMessage, false));
    let (record, cmd) = step(&mut s, RunnerEvent::Patched { kind: Some(StepKind::AssistantMessage) });
    assert!(record);
    assert_eq!(
        cmd,
        RunnerCommand::Finish { status: RunStatus::Error, reason: FinishReason::MaxStepsExceeded, terminated_at_step: 1 }
    );
    assert_eq!(FinishReason::MaxStepsExceeded.as_text(), "max_steps_exceeded");
}

#[test]
fn run_loop_interrupt_stays_pending_and_errors_end_the_run() {
    let mut s = RunnerState::new(5);
    step(&mut s, RunnerEvent::Start);
    step(&mut s, RunnerEvent::MiddlewareDone { ok: true });
    step(&mut s, RunnerEvent::MiddlewareDone { ok: true });
    step(&mut s, provider(StepKind::AssistantMessageWithToolCalls, false));
    assert_eq!(
        step(&mut s, RunnerEvent::Patched { kind: Some(StepKind::AssistantMessageWithToolCalls) }),
        (true, RunnerCommand::ExecuteCalls { normalize: false })
    );
    assert_eq!(
        step(&mut s, RunnerEvent::CallsDone { interrupted: true }).1,
        RunnerCommand::Finish { status: RunStatus::Interrupted, reason: FinishReason::Interrupt, terminated_at_step: 0 }
    );
    assert!(s.pending_interrupt);
    assert_eq!(
        step(&mut s, RunnerEvent::Start).1,
        RunnerCommand::Finish { status: RunStatus::Interrupted, reason: FinishReason::InterruptPending, terminated_at_step: 0 }
    );

    let mut s = RunnerState::new(5);
    step(&mut s, RunnerEvent::Start);
    assert_eq!(
        step(&mut s, RunnerEvent::MiddlewareDone { ok: false }).1,
        RunnerCommand::Finish { status: RunStatus::Error, reason: FinishReason::MiddlewareBeforeRunError, terminated_at_step: 0 }
    );
    let mut s = RunnerState::new(5);
    step(&mut s, RunnerEvent::Start);
    step(&mut s, RunnerEvent::MiddlewareDone { ok: true });
    step(&mut s, RunnerEvent::MiddlewareDone { ok: true });
    assert_eq!(
        step(&mut s, RunnerEvent::ProviderReturned { outcome: ProviderOutcome::TimedOut }).1,
        RunnerCommand::Finish { status: RunStatus::Error, reason: FinishReason::ProviderTimeout, terminated_at_step: 0 }
    );
    assert_eq!(step(&mut s, RunnerEvent::CallsDone { interrupted: false }), (false, RunnerCommand::Ignore));
}

fn interrupted_runner() -> RunnerState {
    let mut s = RunnerState::new(4);
    step(&mut s, RunnerEvent::Start);
    step(&mut s, RunnerEvent::MiddlewareDone { ok: true });
    step(&mut s, RunnerEvent::MiddlewareDone { ok: true });
    step(&mut s, provider(StepKind::ToolCalls, false));
    step(&mut s, RunnerEvent::Patched { kind: Some(StepKind::ToolCalls) });
    step(&mut s, RunnerEvent::CallsDone { interrupted: true });
    assert!(s.pending_interrupt);
    s
}

#[test]
fn run_loop_resume_runs_the_call_then_continues() {
    let mut s = interrupted_runner();
    assert_eq!(
        step(&mut s, RunnerEvent::Resume { matches_pending: true, decision: ResumeDecision::Approve }),
        (false, RunnerCommand::ExecutePendingCall { edited: false })
    );
    assert!(!s.pending_interrupt);
    assert_eq!(step(&mut s, RunnerEvent::CallsDone { interrupted: false }), (false, RunnerCommand::PrepareStep { step_index: 1 }));
    assert_eq!(s.loop_index, 0);

    let mut s = interrupted_runner();
    assert_eq!(
        step(&mut s, RunnerEvent::Resume { matches_pending: true, decision: ResumeDecision::Reject }),
        (false, RunnerCommand::RejectPendingCall)
    );
    assert_eq!(
        step(&mut s, RunnerEvent::CallsDone { interrupted: true }).1,
        RunnerCommand::Finish { status: RunStatus::Interrupted, reason: FinishReason::Interrupt, terminated_at_step: 0 }
    );
}

#[test]
fn run_loop_refused_resumes() {
    let mut s = interrupted_runner();
    assert_eq!(
        step(&mut s, RunnerEvent::Resume { matches_pending: false, decision: ResumeDecision::Approve }).1,
        RunnerCommand::Finish { status: RunStatus::Error, reason: FinishReason::InterruptNotFound, terminated_at_step: 0 }
    );
    assert!(s.pending_interrupt);
    assert_eq!(
        step(&mut s, RunnerEvent::Resume { matches_pending: true, decision: ResumeDecision::Edit { args_valid: false } }).1,
        RunnerCommand::Finish { status: RunStatus::Error, reason: FinishReason::InvalidResume, terminated_at_step: 0 }
    );
    assert!(s.pending_interrupt);
    assert_eq!(
        step(&mut s, RunnerEvent::Resume { matches_pending: true, decision: ResumeDecision::Edit { args_valid: true } }).1,
        RunnerCommand::ExecutePendingCall { edited: true }
    );

    let mut fresh = RunnerState::new(2);
    let before = fresh;
    assert_eq!(
        step(&mut fresh, RunnerEvent::Resume { matches_pending: true, decision: ResumeDecision::Approve }).1,
        RunnerCommand::Finish { status: RunStatus::Error, reason: FinishReason::InterruptNotFound, terminated_at_step: 0 }
    );
    assert_eq!(fresh.step_counter, before.step_counter);
    assert_eq!(FinishReason::InterruptNotFound.as_text(), "interrupt_not_found");
}
