//! The engine-value model: what a script-world value holds, as plain data the
//! host can reason about, together with the kind classification that every
//! other operation of the bridge is built on.

use vstd::prelude::*;

verus! {

/// Mathematical model of an engine value. Strings are UTF-16 code-unit
/// sequences; a number that is not exactly a 32-bit integer is kept as the
/// raw bit pattern of its 64-bit floating-point encoding; a function value
/// carries only the opaque token under which the host registered it.
pub enum Val {
    Undefined,
    Null,
    Bool(bool),
    Int(i32),
    Num(u64),
    Text(Seq<u16>),
    Arr(Seq<Val>),
    Obj(Seq<(Seq<u16>, Val)>),
    Fun(u64),
}

/// One property of an object value: a UTF-16 name and the value it labels.
#[derive(Debug, PartialEq, Eq)]
pub struct Property {
    pub name: Vec<u16>,
    pub value: JsValue,
}

/// An engine value as the host holds it: the executable counterpart of `Val`.
#[derive(Debug, PartialEq, Eq)]
pub enum JsValue {
    Undefined,
    Null,
    Bool(bool),
    Int(i32),
    Num(u64),
    Text(Vec<u16>),
    Arr(Vec<JsValue>),
    Obj(Vec<Property>),
    Fun(u64),
}

pub open spec fn val_of(v: JsValue) -> Val
    decreases v,
    via val_of_decreases
{
    match v {
        JsValue::Undefined => Val::Undefined,
        JsValue::Null => Val::Null,
        JsValue::Bool(b) => Val::Bool(b),
        JsValue::Int(n) => Val::Int(n),
        JsValue::Num(bits) => Val::Num(bits),
        JsValue::Text(s) => Val::Text(s@),
        JsValue::Arr(elems) => Val::Arr(vals_of(elems@)),
        JsValue::Obj(props) => Val::Obj(props_of(props@)),
        JsValue::Fun(token) => Val::Fun(token),
    }
}

#[via_fn]
proof fn val_of_decreases(v: JsValue) {
    match v {
        JsValue::Arr(elems) => {
            assert(decreases_to!(v => elems));
            assert(decreases_to!(elems => elems@));
        },
        JsValue::Obj(props) => {
            assert(decreases_to!(v => props));
            assert(decreases_to!(props => props@));
        },
        _ => {},
    }
}

pub open spec fn vals_of(s: Seq<JsValue>) -> Seq<Val>
    decreases s,
{
    if s.len() == 0 {
        Seq::empty()
    } else {
        seq![val_of(s[0])] + vals_of(s.subrange(1, s.len() as int))
    }
}

pub open spec fn props_of(s: Seq<Property>) -> Seq<(Seq<u16>, Val)>
    decreases s,
    via props_of_decreases
{
    if s.len() == 0 {
        Seq::empty()
    } else {
        seq![(s[0].name@, val_of(s[0].value))] + props_of(s.subrange(1, s.len() as int))
    }
}

#[via_fn]
proof fn props_of_decreases(s: Seq<Property>) {
    if s.len() != 0 {
        assert(decreases_to!(s => s[0]));
        assert(decreases_to!(s[0] => s[0].value));
    }
}

impl View for JsValue {
    type V = Val;

    open spec fn view(&self) -> Val {
        val_of(*self)
    }
}

/// The kind of an engine value, as the classification operation reports it.
#[derive(Clone, Copy, PartialEq, Eq, Structural, Debug)]
pub enum JsValueType {
    Unknown,
    Undefined,
    Object,
    Array,
    String,
    Integer,
    Number,
    True,
    False,
    Null,
    Function,
}

/// The kind of a data value as the writer protocol sees it: function values
/// have no place in it, and the two boolean kinds are told apart.
#[derive(Clone, Copy, PartialEq, Eq, Structural, Debug)]
pub enum JsonValueKind {
    Undefined,
    Object,
    Array,
    String,
    Number,
    True,
    False,
    Null,
}

pub open spec fn kind_of_val(v: Val) -> JsValueType {
    match v {
        Val::Undefined => JsValueType::Undefined,
        Val::Null => JsValueType::Null,
        Val::Bool(b) => if b {
            JsValueType::True
        } else {
            JsValueType::False
        },
        Val::Int(_) => JsValueType::Integer,
        Val::Num(_) => JsValueType::Number,
        Val::Text(_) => JsValueType::String,
        Val::Arr(_) => JsValueType::Array,
        Val::Obj(_) => JsValueType::Object,
        Val::Fun(_) => JsValueType::Function,
    }
}

/// Classifies a value. Every constructible value classifies as the kind of
/// the constructor that built it; `Unknown` is never reported for a value of
/// this model.
pub fn kind_of(v: &JsValue) -> (k: JsValueType)
    ensures
        k == kind_of_val(v@),
        k != JsValueType::Unknown,
{
    match v {
        JsValue::Undefined => JsValueType::Undefined,
        JsValue::Null => JsValueType::Null,
        JsValue::Bool(b) => if *b {
            JsValueType::True
        } else {
            JsValueType::False
        },
        JsValue::Int(_) => JsValueType::Integer,
        JsValue::Num(_) => JsValueType::Number,
        JsValue::Text(_) => JsValueType::String,
        JsValue::Arr(_) => JsValueType::Array,
        JsValue::Obj(_) => JsValueType::Object,
        JsValue::Fun(_) => JsValueType::Function,
    }
}

pub open spec fn json_kind_of_val(v: Val) -> Option<JsonValueKind> {
    match v {
        Val::Undefined => Some(JsonValueKind::Undefined),
        Val::Null => Some(JsonValueKind::Null),
        Val::Bool(b) => if b {
            Some(JsonValueKind::True)
        } else {
            Some(JsonValueKind::False)
        },
        Val::Int(_) => Some(JsonValueKind::Number),
        Val::Num(_) => Some(JsonValueKind::Number),
        Val::Text(_) => Some(JsonValueKind::String),
        Val::Arr(_) => Some(JsonValueKind::Array),
        Val::Obj(_) => Some(JsonValueKind::Object),
        Val::Fun(_) => None,
    }
}

/// The writer-protocol kind of a value: `None` exactly for function values,
/// which the data traversal refuses.
pub fn json_kind_of(v: &JsValue) -> (k: Option<JsonValueKind>)
    ensures
        k == json_kind_of_val(v@),
{
    match v {
        JsValue::Undefined => Some(JsonValueKind::Undefined),
        JsValue::Null => Some(JsonValueKind::Null),
        JsValue::Bool(b) => if *b {
            Some(JsonValueKind::True)
        } else {
            Some(JsonValueKind::False)
        },
        JsValue::Int(_) => Some(JsonValueKind::Number),
        JsValue::Num(_) => Some(JsonValueKind::Number),
        JsValue::Text(_) => Some(JsonValueKind::String),
        JsValue::Arr(_) => Some(JsonValueKind::Array),
        JsValue::Obj(_) => Some(JsonValueKind::Object),
        JsValue::Fun(_) => None,
    }
}

/// The answers an engine gives to its kind predicates on one value, gathered
/// as plain booleans. The engine may answer yes to several of them (an array
/// is also an object, an integer is also a number): the classification
/// resolves the ties by a fixed precedence.
pub struct ValueFlags {
    pub is_undefined: bool,
    pub is_null: bool,
    pub is_true: bool,
    pub is_false: bool,
    pub is_int32: bool,
    pub is_number: bool,
    pub is_string: bool,
    pub is_function: bool,
    pub is_array: bool,
    pub is_object: bool,
}

/// The fixed precedence: undefined, null and the booleans first, then the
/// exact-integer check before the general number check, then string, then
/// function before array, array before generic object, and `Unknown` only
/// when the engine answered no to everything.
pub open spec fn classify_spec(f: ValueFlags) -> JsValueType {
    if f.is_undefined {
        JsValueType::Undefined
    } else if f.is_null {
        JsValueType::Null
    } else if f.is_true {
        JsValueType::True
    } else if f.is_false {
        JsValueType::False
    } else if f.is_int32 {
        JsValueType::Integer
    } else if f.is_number {
        JsValueType::Number
    } else if f.is_string {
        JsValueType::String
    } else if f.is_function {
        JsValueType::Function
    } else if f.is_array {
        JsValueType::Array
    } else if f.is_object {
        JsValueType::Object
    } else {
        JsValueType::Unknown
    }
}

/// Resolves one value's engine predicate answers to a single kind, by the
/// fixed precedence of `classify_spec`.
pub fn classify(f: &ValueFlags) -> (k: JsValueType)
    ensures
        k == classify_spec(*f),
{
    if f.is_undefined {
        JsValueType::Undefined
    } else if f.is_null {
        JsValueType::Null
    } else if f.is_true {
        JsValueType::True
    } else if f.is_false {
        JsValueType::False
    } else if f.is_int32 {
        JsValueType::Integer
    } else if f.is_number {
        JsValueType::Number
    } else if f.is_string {
        JsValueType::String
    } else if f.is_function {
        JsValueType::Function
    } else if f.is_array {
        JsValueType::Array
    } else if f.is_object {
        JsValueType::Object
    } else {
        JsValueType::Unknown
    }
}

/// The predicate answers this model's values give: an integer is also a
/// number, and an array is also an object, as the engine answers.
pub open spec fn flags_of(v: Val) -> ValueFlags {
    ValueFlags {
        is_undefined: v is Undefined,
        is_null: v is Null,
        is_true: v == Val::Bool(true),
        is_false: v == Val::Bool(false),
        is_int32: v is Int,
        is_number: v is Int || v is Num,
        is_string: v is Text,
        is_function: v is Fun,
        is_array: v is Arr,
        is_object: v is Arr || v is Obj,
    }
}

/// The precedence chain and the direct classification agree: resolving a
/// model value's predicate answers yields exactly its kind.
pub proof fn lemma_classify_agrees(v: Val)
    ensures
        classify_spec(flags_of(v)) == kind_of_val(v),
{
}

/// Kind round-trip: every constructible value classifies as the kind of
/// the constructor that built it, whatever it holds.
pub proof fn lemma_kind_round_trip(
    n: i32,
    bits: u64,
    s: Seq<u16>,
    elems: Seq<Val>,
    props: Seq<(Seq<u16>, Val)>,
    token: u64,
)
    ensures
        kind_of_val(Val::Undefined) == JsValueType::Undefined,
        kind_of_val(Val::Null) == JsValueType::Null,
        kind_of_val(Val::Bool(true)) == JsValueType::True,
        kind_of_val(Val::Bool(false)) == JsValueType::False,
        kind_of_val(Val::Int(n)) == JsValueType::Integer,
        kind_of_val(Val::Num(bits)) == JsValueType::Number,
        kind_of_val(Val::Text(s)) == JsValueType::String,
        kind_of_val(Val::Arr(elems)) == JsValueType::Array,
        kind_of_val(Val::Obj(props)) == JsValueType::Object,
        kind_of_val(Val::Fun(token)) == JsValueType::Function,
{
}

} // verus!
