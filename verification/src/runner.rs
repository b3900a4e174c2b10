//! The script runner's decision core: a run compiles and then executes,
//! and its outcome is routed to exactly one of the host's two callbacks —
//! the error callback for a compile rejection or a thrown exception, the
//! result callback for a value. The engine work happens outside; this
//! state machine decides every routing step, so no outcome can reach
//! both callbacks or neither.

use vstd::prelude::*;

verus! {

/// Where a run stands. `CompileFailed`, `Ran` and `RuntimeFailed` are
/// terminal.
#[derive(Clone, Copy, PartialEq, Eq, Structural, Debug)]
pub enum RunState {
    Compiling,
    CompileFailed,
    Compiled,
    Ran,
    RuntimeFailed,
}

/// What the engine reported back for the step in flight.
#[derive(Clone, Copy, PartialEq, Eq, Structural, Debug)]
pub enum RunEvent {
    CompileSucceeded,
    CompileRejected,
    RunSucceeded,
    RunThrew,
}

/// Which of the host's callbacks an outcome reaches.
#[derive(Clone, Copy, PartialEq, Eq, Structural, Debug)]
pub enum ReportChannel {
    OnError,
    OnResult,
}

/// The transition table: compilation settles to compiled or failed,
/// execution settles a compiled run to ran or failed, and nothing else
/// moves — an event that does not belong to the state is refused.
pub open spec fn step_spec(s: RunState, e: RunEvent) -> Option<RunState> {
    match (s, e) {
        (RunState::Compiling, RunEvent::CompileSucceeded) => Some(RunState::Compiled),
        (RunState::Compiling, RunEvent::CompileRejected) => Some(RunState::CompileFailed),
        (RunState::Compiled, RunEvent::RunSucceeded) => Some(RunState::Ran),
        (RunState::Compiled, RunEvent::RunThrew) => Some(RunState::RuntimeFailed),
        _ => None,
    }
}

/// Advances a run by one engine report.
pub fn step(s: RunState, e: RunEvent) -> (r: Option<RunState>)
    ensures
        r == step_spec(s, e),
{
    match (s, e) {
        (RunState::Compiling, RunEvent::CompileSucceeded) => Some(RunState::Compiled),
        (RunState::Compiling, RunEvent::CompileRejected) => Some(RunState::CompileFailed),
        (RunState::Compiled, RunEvent::RunSucceeded) => Some(RunState::Ran),
        (RunState::Compiled, RunEvent::RunThrew) => Some(RunState::RuntimeFailed),
        _ => None,
    }
}

/// A state no event moves.
pub open spec fn is_terminal(s: RunState) -> bool {
    s is CompileFailed || s is Ran || s is RuntimeFailed
}

/// The callback a state routes to: failures of either phase reach the
/// error callback, a completed run reaches the result callback, and a
/// state still in flight reaches none.
pub open spec fn report_spec(s: RunState) -> Option<ReportChannel> {
    match s {
        RunState::CompileFailed => Some(ReportChannel::OnError),
        RunState::RuntimeFailed => Some(ReportChannel::OnError),
        RunState::Ran => Some(ReportChannel::OnResult),
        _ => None,
    }
}

pub fn report_target(s: RunState) -> (r: Option<ReportChannel>)
    ensures
        r == report_spec(s),
{
    match s {
        RunState::CompileFailed => Some(ReportChannel::OnError),
        RunState::RuntimeFailed => Some(ReportChannel::OnError),
        RunState::Ran => Some(ReportChannel::OnResult),
        _ => None,
    }
}

/// The terminal state a whole run settles in, given how its two phases
/// went.
pub open spec fn outcome_spec(compile_ok: bool, run_ok: bool) -> RunState {
    if !compile_ok {
        RunState::CompileFailed
    } else if run_ok {
        RunState::Ran
    } else {
        RunState::RuntimeFailed
    }
}

/// Drives a whole run through the machine and says which callback fires:
/// the result callback exactly when both phases succeeded, the error
/// callback otherwise, never both and never neither.
pub fn conclude(compile_ok: bool, run_ok: bool) -> (r: ReportChannel)
    ensures
        report_spec(outcome_spec(compile_ok, run_ok)) == Some(r),
        r is OnResult <==> compile_ok && run_ok,
        r is OnError <==> !(compile_ok && run_ok),
{
    let after_compile = step(
        RunState::Compiling,
        if compile_ok {
            RunEvent::CompileSucceeded
        } else {
            RunEvent::CompileRejected
        },
    );
    let outcome = match after_compile {
        Some(RunState::Compiled) => step(
            RunState::Compiled,
            if run_ok {
                RunEvent::RunSucceeded
            } else {
                RunEvent::RunThrew
            },
        ),
        other => other,
    };
    match outcome {
        Some(s) => match report_target(s) {
            Some(channel) => channel,
            None => ReportChannel::OnError,
        },
        None => ReportChannel::OnError,
    }
}

/// A call into a script function routes the same way: the thrown value
/// reaches the error callback, a returned value the result callback.
pub fn call_outcome(call_ok: bool) -> (r: ReportChannel)
    ensures
        r is OnResult <==> call_ok,
        r is OnError <==> !call_ok,
{
    if call_ok {
        ReportChannel::OnResult
    } else {
        ReportChannel::OnError
    }
}

/// Error exclusivity: every run settles in a terminal state, and that
/// state routes to exactly one of the two callbacks — the result callback
/// exactly when compilation and execution both succeeded.
pub proof fn lemma_error_exclusivity(compile_ok: bool, run_ok: bool)
    ensures
        is_terminal(outcome_spec(compile_ok, run_ok)),
        report_spec(outcome_spec(compile_ok, run_ok)) is Some,
        report_spec(outcome_spec(compile_ok, run_ok)) == Some(ReportChannel::OnResult) <==> (
        compile_ok && run_ok),
        report_spec(outcome_spec(compile_ok, run_ok)) == Some(ReportChannel::OnError) <==> !(
        compile_ok && run_ok),
{
}

/// A state routes to a callback exactly when it is terminal: nothing is
/// reported early, and nothing terminal goes unreported.
pub proof fn lemma_terminal_reports_exactly_once(s: RunState)
    ensures
        is_terminal(s) <==> report_spec(s) is Some,
{
}

} // verus!
