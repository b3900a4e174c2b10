use js_bridge::value::{JsValue, JsValueType};
use js_bridge::handles::{Isolate, HandleError};
use js_bridge::runner::{RunState, RunEvent, ReportChannel, step, report_target, conclude, call_outcome};
use js_bridge::handles::BridgeError;
use js_bridge::writer::{RecordingWriter, WriteEvent};
use js_bridge::surface::set_index;
use js_bridge::emit::EmitError;

#[test]
fn store_and_read_within_a_scope() {
    let mut iso = Isolate::new(1);
    iso.enter_scope();
    let h = iso.store(JsValue::integer(12));
    assert_eq!(iso.read(&h), Ok(JsValue::Int(12)));
    assert_eq!(iso.kind_of_handle(&h), Ok(JsValueType::Integer));
    let h2 = iso.store(JsValue::boolean(true));
    assert_eq!(iso.read(&h2), Ok(JsValue::Bool(true)));
    assert_eq!(iso.read(&h), Ok(JsValue::Int(12)));
}

#[test]
fn nested_scopes_and_outer_handles() {
    let mut iso = Isolate::new(1);
    iso.enter_scope();
    let outer = iso.store(JsValue::integer(1));
    iso.enter_scope();
    let inner = iso.store(JsValue::integer(2));
    // both live while the inner scope is open
    assert_eq!(iso.read(&outer), Ok(JsValue::Int(1)));
    assert_eq!(iso.read(&inner), Ok(JsValue::Int(2)));
    iso.exit_scope();
    // the inner handle dies with its scope; the outer one lives on
    assert_eq!(iso.read(&inner), Err(HandleError::StaleScope));
    assert_eq!(iso.read(&outer), Ok(JsValue::Int(1)));
}

#[test]
fn scope_lifetime_handle_dies_with_its_scope() {
    let mut iso = Isolate::new(7);
    iso.enter_scope();
    let h = iso.store(JsValue::integer(5));
    assert_eq!(iso.read(&h), Ok(JsValue::Int(5)));
    iso.exit_scope();
    // never stale data: the read fails safely
    assert_eq!(iso.read(&h), Err(HandleError::StaleScope));
    // a fresh scope does not revive it: identifiers are never reused
    iso.enter_scope();
    let _fresh = iso.store(JsValue::integer(99));
    assert_eq!(iso.read(&h), Err(HandleError::StaleScope));
}

#[test]
fn missing_slot_reads_as_bad_index() {
    let mut iso = Isolate::new(1);
    iso.enter_scope();
    let mut h = iso.store(JsValue::integer(5));
    h.index = 40;
    assert_eq!(iso.read(&h), Err(HandleError::BadIndex));
}

#[test]
fn isolate_independence() {
    let mut a = Isolate::new(1);
    let mut b = Isolate::new(2);
    a.enter_scope();
    b.enter_scope();
    let ha = a.store(JsValue::integer(10));
    let hb = b.store(JsValue::integer(20));
    // a handle is only ever valid against the isolate that produced it
    assert_eq!(a.read(&hb), Err(HandleError::CrossIsolate));
    assert_eq!(b.read(&ha), Err(HandleError::CrossIsolate));
    assert_eq!(a.read(&ha), Ok(JsValue::Int(10)));
    assert_eq!(b.read(&hb), Ok(JsValue::Int(20)));
}

#[test]
fn emitting_through_a_handle() {
    let mut iso = Isolate::new(1);
    iso.enter_scope();
    let mut a = JsValue::array_with_length(0);
    set_index(&mut a, 0, JsValue::integer(4));
    let h = iso.store(a);
    let mut w = RecordingWriter::new();
    assert_eq!(iso.emit_handle(&h, &mut w), Ok(()));
    assert_eq!(
        w.events,
        vec![WriteEvent::StartArr(1), WriteEvent::Int(4), WriteEvent::EndArr]
    );
    // a function value is refused by the traversal, not the handle check
    let hf = iso.store(JsValue::function_from_token(8));
    let mut w2 = RecordingWriter::new();
    assert_eq!(
        iso.emit_handle(&hf, &mut w2),
        Err(BridgeError::Emit(EmitError::UnsupportedKind))
    );
    assert!(w2.events.is_empty());
    // a dead handle is refused before anything is written
    iso.exit_scope();
    let mut w3 = RecordingWriter::new();
    assert_eq!(
        iso.emit_handle(&h, &mut w3),
        Err(BridgeError::Handle(HandleError::StaleScope))
    );
    assert!(w3.events.is_empty());
}

#[test]
fn run_state_machine_transitions() {
    assert_eq!(
        step(RunState::Compiling, RunEvent::CompileSucceeded),
        Some(RunState::Compiled)
    );
    assert_eq!(
        step(RunState::Compiling, RunEvent::CompileRejected),
        Some(RunState::CompileFailed)
    );
    assert_eq!(step(RunState::Compiled, RunEvent::RunSucceeded), Some(RunState::Ran));
    assert_eq!(step(RunState::Compiled, RunEvent::RunThrew), Some(RunState::RuntimeFailed));
    // nothing moves a terminal state, and no phase skips ahead
    assert_eq!(step(RunState::Compiling, RunEvent::RunSucceeded), None);
    assert_eq!(step(RunState::Ran, RunEvent::RunThrew), None);
    assert_eq!(step(RunState::CompileFailed, RunEvent::CompileSucceeded), None);
}

#[test]
fn report_routing_of_states() {
    assert_eq!(report_target(RunState::Compiling), None);
    assert_eq!(report_target(RunState::Compiled), None);
    assert_eq!(report_target(RunState::CompileFailed), Some(ReportChannel::OnError));
    assert_eq!(report_target(RunState::RuntimeFailed), Some(ReportChannel::OnError));
    assert_eq!(report_target(RunState::Ran), Some(ReportChannel::OnResult));
}

#[test]
fn error_exclusivity_of_whole_runs() {
    // a valid script that returns a value: the result callback alone
    assert_eq!(conclude(true, true), ReportChannel::OnResult);
    // a script that throws: the error callback alone
    assert_eq!(conclude(true, false), ReportChannel::OnError);
    // a script that does not compile: the error callback alone, whatever
    // the execution phase would have done
    assert_eq!(conclude(false, true), ReportChannel::OnError);
    assert_eq!(conclude(false, false), ReportChannel::OnError);
}

#[test]
fn function_call_routing() {
    assert_eq!(call_outcome(true), ReportChannel::OnResult);
    assert_eq!(call_outcome(false), ReportChannel::OnError);
}
