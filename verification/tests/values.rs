use js_bridge::value::{JsValue, JsValueType, JsonValueKind, ValueFlags, kind_of, json_kind_of, classify};
use js_bridge::surface::{
    ConversionError, copy_value, as_integer, as_number_bits, string_length, copy_string,
    array_length, get_index, set_index, get_property, set_property, own_property_names,
};

fn u(s: &str) -> Vec<u16> {
    s.encode_utf16().collect()
}

#[test]
fn kind_round_trip_of_every_constructor() {
    assert_eq!(kind_of(&JsValue::undefined()), JsValueType::Undefined);
    assert_eq!(kind_of(&JsValue::null()), JsValueType::Null);
    assert_eq!(kind_of(&JsValue::boolean(true)), JsValueType::True);
    assert_eq!(kind_of(&JsValue::boolean(false)), JsValueType::False);
    assert_eq!(kind_of(&JsValue::integer(5)), JsValueType::Integer);
    assert_eq!(kind_of(&JsValue::number_from_bits(0.5f64.to_bits())), JsValueType::Number);
    assert_eq!(kind_of(&JsValue::string(u("hi"))), JsValueType::String);
    assert_eq!(kind_of(&JsValue::array_with_length(2)), JsValueType::Array);
    assert_eq!(kind_of(&JsValue::object()), JsValueType::Object);
    assert_eq!(kind_of(&JsValue::function_from_token(9)), JsValueType::Function);
}

#[test]
fn number_built_from_integral_bits_classifies_as_integer() {
    let v = JsValue::number_from_bits(3.0f64.to_bits());
    assert_eq!(v, JsValue::Int(3));
    assert_eq!(kind_of(&v), JsValueType::Integer);
}

#[test]
fn negative_zero_stays_a_number_and_round_trips() {
    let neg_zero = (-0.0f64).to_bits();
    let w = JsValue::number_from_bits(neg_zero);
    assert_eq!(w, JsValue::Num(neg_zero));
    assert_eq!(kind_of(&w), JsValueType::Number);
    // the bit pattern — sign of zero included — comes back untouched
    assert_eq!(as_number_bits(&w), Ok(neg_zero));
    assert!(f64::from_bits(as_number_bits(&w).unwrap()).is_sign_negative());
}

#[test]
fn classify_resolves_ties_by_precedence() {
    let none = ValueFlags {
        is_undefined: false,
        is_null: false,
        is_true: false,
        is_false: false,
        is_int32: false,
        is_number: false,
        is_string: false,
        is_function: false,
        is_array: false,
        is_object: false,
    };
    // an engine integer also answers yes to the number and object checks
    let int_flags = ValueFlags { is_int32: true, is_number: true, ..none };
    assert_eq!(classify(&int_flags), JsValueType::Integer);
    let num_flags = ValueFlags { is_number: true, ..none };
    assert_eq!(classify(&num_flags), JsValueType::Number);
    // an array also answers yes to the object check; a function too
    let arr_flags = ValueFlags { is_array: true, is_object: true, ..none };
    assert_eq!(classify(&arr_flags), JsValueType::Array);
    let fun_flags = ValueFlags { is_function: true, is_object: true, is_array: true, ..none };
    assert_eq!(classify(&fun_flags), JsValueType::Function);
    let obj_flags = ValueFlags { is_object: true, ..none };
    assert_eq!(classify(&obj_flags), JsValueType::Object);
    assert_eq!(classify(&none), JsValueType::Unknown);
    let undef_flags = ValueFlags { is_undefined: true, is_object: true, ..none };
    assert_eq!(classify(&undef_flags), JsValueType::Undefined);
}

#[test]
fn json_kind_refuses_functions_only() {
    assert_eq!(json_kind_of(&JsValue::function_from_token(1)), None);
    assert_eq!(json_kind_of(&JsValue::undefined()), Some(JsonValueKind::Undefined));
    assert_eq!(json_kind_of(&JsValue::integer(1)), Some(JsonValueKind::Number));
    assert_eq!(
        json_kind_of(&JsValue::number_from_bits(0.5f64.to_bits())),
        Some(JsonValueKind::Number)
    );
    assert_eq!(json_kind_of(&JsValue::boolean(true)), Some(JsonValueKind::True));
    assert_eq!(json_kind_of(&JsValue::boolean(false)), Some(JsonValueKind::False));
    assert_eq!(json_kind_of(&JsValue::string(u(""))), Some(JsonValueKind::String));
    assert_eq!(json_kind_of(&JsValue::array_with_length(0)), Some(JsonValueKind::Array));
    assert_eq!(json_kind_of(&JsValue::object()), Some(JsonValueKind::Object));
    assert_eq!(json_kind_of(&JsValue::null()), Some(JsonValueKind::Null));
}

#[test]
fn integer_extraction() {
    assert_eq!(as_integer(&JsValue::integer(41)), Ok(41));
    assert_eq!(as_integer(&JsValue::number_from_bits(2.5f64.to_bits())), Ok(2));
    assert_eq!(as_integer(&JsValue::number_from_bits((-2.5f64).to_bits())), Ok(-2));
    // a not-a-number pattern converts to zero, as the script language says
    assert_eq!(as_integer(&JsValue::number_from_bits(f64::NAN.to_bits())), Ok(0));
    assert_eq!(
        as_integer(&JsValue::number_from_bits(f64::INFINITY.to_bits())),
        Err(ConversionError::NotNumeric)
    );
    assert_eq!(as_integer(&JsValue::boolean(true)), Err(ConversionError::NotNumeric));
    assert_eq!(as_integer(&JsValue::string(u("7"))), Err(ConversionError::NotNumeric));
}

#[test]
fn number_extraction() {
    assert_eq!(as_number_bits(&JsValue::integer(7)), Ok(7.0f64.to_bits()));
    assert_eq!(as_number_bits(&JsValue::integer(0)), Ok(0.0f64.to_bits()));
    assert_eq!(as_number_bits(&JsValue::integer(i32::MIN)), Ok((-2147483648.0f64).to_bits()));
    let half = 0.5f64.to_bits();
    assert_eq!(as_number_bits(&JsValue::number_from_bits(half)), Ok(half));
    assert_eq!(as_number_bits(&JsValue::null()), Err(ConversionError::NotNumeric));
}

#[test]
fn string_length_and_exact_copy() {
    // one two-unit character at the end: four code units in all
    let s = JsValue::string(u("ab\u{1F600}"));
    assert_eq!(string_length(&s), 4);
    let mut buffer: Vec<u16> = vec![9999; 6];
    copy_string(&s, &mut buffer);
    let expected = u("ab\u{1F600}");
    assert_eq!(&buffer[..4], &expected[..]);
    // the rest of the buffer is untouched: no terminator is written
    assert_eq!(&buffer[4..], &[9999, 9999]);
}

#[test]
fn array_construction_and_indexing() {
    let mut a = JsValue::array_with_length(3);
    assert_eq!(array_length(&a), 3);
    assert_eq!(get_index(&a, 0), JsValue::Undefined);
    set_index(&mut a, 1, JsValue::integer(10));
    assert_eq!(get_index(&a, 1), JsValue::Int(10));
    assert_eq!(get_index(&a, 0), JsValue::Undefined);
    // reading past the end answers undefined
    assert_eq!(get_index(&a, 3), JsValue::Undefined);
    assert_eq!(get_index(&a, 1000), JsValue::Undefined);
}

#[test]
fn writing_past_the_end_grows_the_array() {
    let mut a = JsValue::array_with_length(1);
    set_index(&mut a, 4, JsValue::boolean(true));
    assert_eq!(array_length(&a), 5);
    assert_eq!(get_index(&a, 3), JsValue::Undefined);
    assert_eq!(get_index(&a, 4), JsValue::Bool(true));
}

#[test]
fn object_properties_first_match_wins() {
    let mut o = JsValue::object();
    assert_eq!(get_property(&o, &u("missing")), JsValue::Undefined);
    set_property(&mut o, &u("x"), JsValue::integer(1));
    set_property(&mut o, &u("y"), JsValue::string(u("z")));
    assert_eq!(get_property(&o, &u("x")), JsValue::Int(1));
    assert_eq!(get_property(&o, &u("y")), JsValue::Text(u("z")));
    // overwriting keeps the position and order of names
    set_property(&mut o, &u("x"), JsValue::integer(2));
    assert_eq!(get_property(&o, &u("x")), JsValue::Int(2));
    let names = own_property_names(&o);
    assert_eq!(array_length(&names), 2);
    assert_eq!(get_index(&names, 0), JsValue::Text(u("x")));
    assert_eq!(get_index(&names, 1), JsValue::Text(u("y")));
}

#[test]
fn deep_copy_preserves_structure() {
    let mut o = JsValue::object();
    let mut inner = JsValue::array_with_length(0);
    set_index(&mut inner, 0, JsValue::integer(5));
    set_property(&mut o, &u("list"), inner);
    let copy = copy_value(&o);
    assert_eq!(copy, o);
}
