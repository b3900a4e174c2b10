use js_bridge::value::JsValue;
use js_bridge::writer::{RecordingWriter, WriteEvent};
use js_bridge::emit::{emit, EmitError};
use js_bridge::surface::{set_index, set_property};

fn u(s: &str) -> Vec<u16> {
    s.encode_utf16().collect()
}

fn record(v: &JsValue) -> Vec<WriteEvent> {
    let mut w = RecordingWriter::new();
    emit(v, &mut w).expect("a data value traverses");
    w.events
}

#[test]
fn leaves_emit_one_call_each() {
    assert_eq!(record(&JsValue::undefined()), vec![WriteEvent::Undefined]);
    assert_eq!(record(&JsValue::null()), vec![WriteEvent::Null]);
    assert_eq!(record(&JsValue::boolean(true)), vec![WriteEvent::True]);
    assert_eq!(record(&JsValue::boolean(false)), vec![WriteEvent::False]);
    assert_eq!(record(&JsValue::integer(-7)), vec![WriteEvent::Int(-7)]);
    assert_eq!(record(&JsValue::string(u("ok"))), vec![WriteEvent::Text(u("ok"))]);
}

#[test]
fn integer_number_split_in_the_stream() {
    // 1 + 2 is an exact integer: it takes the integer call
    let three = JsValue::number_from_bits((1.0f64 + 2.0f64).to_bits());
    assert_eq!(record(&three), vec![WriteEvent::Int(3)]);
    // 1 / 2 is not: it takes the number call with its own bit pattern
    let half_bits = (1.0f64 / 2.0f64).to_bits();
    let half = JsValue::number_from_bits(half_bits);
    assert_eq!(record(&half), vec![WriteEvent::Num(half_bits)]);
    // negative zero is not an engine integer: its pattern crosses untouched
    let neg_zero = (-0.0f64).to_bits();
    assert_eq!(
        record(&JsValue::number_from_bits(neg_zero)),
        vec![WriteEvent::Num(neg_zero)]
    );
}

#[test]
fn array_fidelity_in_index_order() {
    let mut a = JsValue::array_with_length(0);
    set_index(&mut a, 0, JsValue::integer(10));
    set_index(&mut a, 1, JsValue::string(u("a")));
    set_index(&mut a, 2, JsValue::boolean(true));
    assert_eq!(
        record(&a),
        vec![
            WriteEvent::StartArr(3),
            WriteEvent::Int(10),
            WriteEvent::Text(u("a")),
            WriteEvent::True,
            WriteEvent::EndArr,
        ]
    );
}

#[test]
fn object_property_pairing_name_before_value() {
    let mut o = JsValue::object();
    set_property(&mut o, &u("x"), JsValue::integer(1));
    set_property(&mut o, &u("y"), JsValue::string(u("z")));
    let events = record(&o);
    assert_eq!(
        events,
        vec![
            WriteEvent::StartObj,
            WriteEvent::PropName(u("x")),
            WriteEvent::Int(1),
            WriteEvent::PropName(u("y")),
            WriteEvent::Text(u("z")),
            WriteEvent::EndObj,
        ]
    );
    let names = events.iter().filter(|e| matches!(e, WriteEvent::PropName(_))).count();
    let values = events.len() - 2 - names;
    assert_eq!(names, values);
}

#[test]
fn structural_balance_of_a_nested_graph() {
    // [ { "list": [1], "flag": false }, [] ]
    let mut inner = JsValue::array_with_length(0);
    set_index(&mut inner, 0, JsValue::integer(1));
    let mut obj = JsValue::object();
    set_property(&mut obj, &u("list"), inner);
    set_property(&mut obj, &u("flag"), JsValue::boolean(false));
    let mut top = JsValue::array_with_length(0);
    set_index(&mut top, 0, obj);
    set_index(&mut top, 1, JsValue::array_with_length(0));
    let events = record(&top);
    let count = |f: fn(&WriteEvent) -> bool| events.iter().filter(|e| f(e)).count();
    assert_eq!(
        count(|e| matches!(e, WriteEvent::StartArr(_))),
        count(|e| matches!(e, WriteEvent::EndArr))
    );
    assert_eq!(
        count(|e| matches!(e, WriteEvent::StartObj)),
        count(|e| matches!(e, WriteEvent::EndObj))
    );
    // strict last-opened-first-closed order
    let mut stack: Vec<u8> = Vec::new();
    for e in &events {
        match e {
            WriteEvent::StartArr(_) => stack.push(0),
            WriteEvent::StartObj => stack.push(1),
            WriteEvent::EndArr => assert_eq!(stack.pop(), Some(0)),
            WriteEvent::EndObj => assert_eq!(stack.pop(), Some(1)),
            _ => {},
        }
    }
    assert!(stack.is_empty());
}

#[test]
fn nested_empty_array_stream() {
    let mut top = JsValue::array_with_length(0);
    set_index(&mut top, 0, JsValue::array_with_length(0));
    assert_eq!(
        record(&top),
        vec![
            WriteEvent::StartArr(1),
            WriteEvent::StartArr(0),
            WriteEvent::EndArr,
            WriteEvent::EndArr,
        ]
    );
}

#[test]
fn function_values_are_refused_before_anything_is_written() {
    let mut w = RecordingWriter::new();
    let f = JsValue::function_from_token(3);
    assert_eq!(emit(&f, &mut w), Err(EmitError::UnsupportedKind));
    assert!(w.events.is_empty());
    // buried inside a data graph it is still refused, and nothing leaks out
    let mut a = JsValue::array_with_length(0);
    set_index(&mut a, 0, JsValue::integer(1));
    set_index(&mut a, 1, JsValue::function_from_token(3));
    assert_eq!(emit(&a, &mut w), Err(EmitError::UnsupportedKind));
    assert!(w.events.is_empty());
}

#[test]
fn string_payload_is_copied_byte_exact() {
    let payload = u("p\u{00E9}\u{1F600}q");
    let s = JsValue::string(payload.clone());
    let events = record(&s);
    assert_eq!(events, vec![WriteEvent::Text(payload)]);
}
