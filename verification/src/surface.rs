//! The value-handle vocabulary: constructing engine values, classifying
//! and extracting primitives, and navigating strings, arrays and objects.
//! Everything the traversal and the host build on.

use vstd::prelude::*;
use crate::value::{JsValue, Val, Property, val_of, vals_of, props_of};
use crate::numbits;
use crate::emit::{wf_val, lemma_vals_of_char, lemma_props_of_char, lemma_wf_list_char};

verus! {

/// The value the engine tags for a 64-bit floating-point bit pattern:
/// an integer value when the pattern encodes an integer in 32-bit range,
/// the number value carrying the pattern otherwise.
pub open spec fn number_val_spec(bits: u64) -> Val {
    match numbits::int32_of_bits_spec(bits) {
        Some(n) => Val::Int(n),
        None => Val::Num(bits),
    }
}

/// A number pattern the engine does not tag as a 32-bit integer — every
/// non-integral, out-of-range or special pattern, the negative-zero
/// pattern included — crosses the bridge bit-exactly: the value built
/// from it is the number value carrying that very pattern, and reading
/// the number back returns it untouched.
pub proof fn lemma_number_bits_round_trip(bits: u64)
    requires
        numbits::int32_of_bits_spec(bits) is None,
    ensures
        number_val_spec(bits) == Val::Num(bits),
{
}

/// Integer/number split: a number whose mathematical value is an integer
/// in the engine's native 32-bit range traverses to the integer writer
/// call carrying that integer; any other numeric value traverses to the
/// number writer call carrying its bit pattern untouched.
pub proof fn lemma_integer_number_split(bits: u64)
    ensures
        numbits::int32_of_bits_spec(bits) matches Some(n) ==> crate::emit::events_of(
            number_val_spec(bits),
        ) == seq![crate::writer::Event::Int(n as i64)],
        numbits::int32_of_bits_spec(bits) is None ==> crate::emit::events_of(
            number_val_spec(bits),
        ) == seq![crate::writer::Event::Num(bits)],
{
}

/// Extraction was asked of a value that cannot yield a number of the
/// requested shape: distinct from a thrown script exception, and expected
/// to be prevented by classifying the value first.
#[derive(Clone, Copy, PartialEq, Eq, Structural, Debug)]
pub enum ConversionError {
    NotNumeric,
}

impl JsValue {
    pub fn undefined() -> (r: JsValue)
        ensures
            r@ == Val::Undefined,
    {
        JsValue::Undefined
    }

    pub fn null() -> (r: JsValue)
        ensures
            r@ == Val::Null,
    {
        JsValue::Null
    }

    pub fn boolean(b: bool) -> (r: JsValue)
        ensures
            r@ == Val::Bool(b),
    {
        JsValue::Bool(b)
    }

    pub fn integer(n: i32) -> (r: JsValue)
        ensures
            r@ == Val::Int(n),
    {
        JsValue::Int(n)
    }

    /// Builds a number value from its 64-bit floating-point bit pattern.
    /// A pattern whose mathematical value is an integer in 32-bit range is
    /// normalized to an integer value, as the engine tags such numbers:
    /// the integer/number distinction is decided here, once, so that the
    /// traversal later routes it to the right writer call. The
    /// negative-zero pattern is not an engine integer and stays a number
    /// value, so its sign survives; positive zero normalizes to integer
    /// zero.
    pub fn number_from_bits(bits: u64) -> (r: JsValue)
        ensures
            r@ == number_val_spec(bits),
    {
        match numbits::int32_of_bits(bits) {
            Some(n) => JsValue::Int(n),
            None => JsValue::Num(bits),
        }
    }

    /// Builds a string value from UTF-16 code units.
    pub fn string(chars: Vec<u16>) -> (r: JsValue)
        ensures
            r@ == Val::Text(chars@),
    {
        JsValue::Text(chars)
    }

    /// Builds an array of the given length with every slot undefined, as
    /// the engine's array constructor does.
    pub fn array_with_length(len: u32) -> (r: JsValue)
        ensures
            r@ == Val::Arr(Seq::new(len as nat, |i: int| Val::Undefined)),
            wf_val(r@),
    {
        let mut elems: Vec<JsValue> = Vec::new();
        let mut i: u32 = 0;
        while i < len
            invariant
                i <= len,
                elems@.len() == i as nat,
                forall|j: int| 0 <= j < i ==> elems@[j] == JsValue::Undefined,
            decreases len - i,
        {
            elems.push(JsValue::Undefined);
            i = i + 1;
        }
        proof {
            lemma_vals_of_char(elems@);
            assert(vals_of(elems@) =~= Seq::new(len as nat, |i: int| Val::Undefined));
            lemma_wf_list_char(vals_of(elems@));
        }
        JsValue::Arr(elems)
    }

    pub fn object() -> (r: JsValue)
        ensures
            r@ == Val::Obj(Seq::<(Seq<u16>, Val)>::empty()),
            wf_val(r@),
            names_distinct(r@->Obj_0),
    {
        let r = JsValue::Obj(Vec::new());
        proof {
            assert(props_of(Seq::<Property>::empty()) =~= Seq::<(Seq<u16>, Val)>::empty());
        }
        r
    }

    /// Wraps the opaque token under which the host registered a native
    /// callback as a script-visible function value.
    pub fn function_from_token(token: u64) -> (r: JsValue)
        ensures
            r@ == Val::Fun(token),
    {
        JsValue::Fun(token)
    }
}

/// A deep copy: the engine hands out fresh handles to equal values, and
/// the host copies data out of scope-bound handles before they die.
pub fn copy_value(v: &JsValue) -> (r: JsValue)
    ensures
        r@ == v@,
    decreases v,
{
    match v {
        JsValue::Undefined => JsValue::Undefined,
        JsValue::Null => JsValue::Null,
        JsValue::Bool(b) => JsValue::Bool(*b),
        JsValue::Int(n) => JsValue::Int(*n),
        JsValue::Num(bits) => JsValue::Num(*bits),
        JsValue::Text(s) => JsValue::Text(crate::writer::copy_code_units(s)),
        JsValue::Arr(elems) => {
            let mut out: Vec<JsValue> = Vec::new();
            let mut i: usize = 0;
            while i < elems.len()
                invariant
                    *v == JsValue::Arr(*elems),
                    i <= elems@.len(),
                    out@.len() == i as nat,
                    forall|j: int| 0 <= j < i ==> (#[trigger] out@[j])@ == elems@[j]@,
                decreases elems@.len() - i,
            {
                proof {
                    assert(decreases_to!(*v => v->Arr_0));
                    assert(v->Arr_0 == *elems);
                    assert(decreases_to!(*elems => elems@));
                    assert(decreases_to!(elems@ => elems@[i as int]));
                }
                let c = copy_value(&elems[i]);
                out.push(c);
                i = i + 1;
            }
            let r = JsValue::Arr(out);
            proof {
                lemma_vals_of_char(out@);
                lemma_vals_of_char(elems@);
                assert(vals_of(out@) =~= vals_of(elems@));
            }
            r
        },
        JsValue::Obj(props) => {
            let mut out: Vec<Property> = Vec::new();
            let mut i: usize = 0;
            while i < props.len()
                invariant
                    *v == JsValue::Obj(*props),
                    i <= props@.len(),
                    out@.len() == i as nat,
                    forall|j: int|
                        0 <= j < i ==> (#[trigger] out@[j]).name@ == props@[j].name@ && out@[j].value@
                            == props@[j].value@,
                decreases props@.len() - i,
            {
                proof {
                    assert(decreases_to!(*v => v->Obj_0));
                    assert(v->Obj_0 == *props);
                    assert(decreases_to!(*props => props@));
                    assert(decreases_to!(props@ => props@[i as int]));
                    assert(decreases_to!(props@[i as int] => props@[i as int].value));
                }
                let name = crate::writer::copy_code_units(&props[i].name);
                let value = copy_value(&props[i].value);
                out.push(Property { name, value });
                i = i + 1;
            }
            let r = JsValue::Obj(out);
            proof {
                lemma_props_of_char(out@);
                lemma_props_of_char(props@);
                assert(props_of(out@) =~= props_of(props@));
            }
            r
        },
        JsValue::Fun(token) => JsValue::Fun(*token),
    }
}

/// The value as a 64-bit integer, truncated toward zero: what the
/// engine's integer conversion yields, a not-a-number pattern converting
/// to zero as the script language's own conversion rules say. Fails —
/// distinctly from a script exception — on any value that is not a
/// number, and on an infinity or a finite magnitude beyond 64 signed
/// bits, where that conversion has no representable result.
pub fn as_integer(v: &JsValue) -> (r: Result<i64, ConversionError>)
    ensures
        v@ matches Val::Int(n) ==> r == Ok::<i64, ConversionError>(n as i64),
        v@ matches Val::Num(bits) ==> r == (if numbits::is_nan(bits) {
            Ok::<i64, ConversionError>(0)
        } else {
            match numbits::trunc_i64_spec(bits) {
                Some(t) => Ok::<i64, ConversionError>(t),
                None => Err::<i64, ConversionError>(ConversionError::NotNumeric),
            }
        }),
        !(v@ is Int) && !(v@ is Num) ==> r == Err::<i64, ConversionError>(
            ConversionError::NotNumeric,
        ),
{
    match v {
        JsValue::Int(n) => Ok(*n as i64),
        JsValue::Num(bits) => {
            let e: u64 = (*bits >> 52) & 0x7ff;
            let m: u64 = *bits & 0x000f_ffff_ffff_ffff;
            if e == 0x7ff && m != 0 {
                return Ok(0);
            }
            match numbits::trunc_i64_of_bits(*bits) {
                Some(t) => Ok(t),
                None => Err(ConversionError::NotNumeric),
            }
        },
        _ => Err(ConversionError::NotNumeric),
    }
}

/// The value as a 64-bit floating-point bit pattern. An integer value is
/// encoded exactly; a number value hands back its own pattern; anything
/// else fails, distinctly from a script exception.
pub fn as_number_bits(v: &JsValue) -> (r: Result<u64, ConversionError>)
    ensures
        v@ matches Val::Int(n) ==> r is Ok && numbits::integer_value(r->Ok_0) == Some(n as int)
            && numbits::is_neg(r->Ok_0) == (n < 0),
        v@ matches Val::Num(bits) ==> r == Ok::<u64, ConversionError>(bits),
        !(v@ is Int) && !(v@ is Num) ==> r == Err::<u64, ConversionError>(
            ConversionError::NotNumeric,
        ),
{
    match v {
        JsValue::Int(n) => Ok(numbits::bits_of_i32(*n)),
        JsValue::Num(bits) => Ok(*bits),
        _ => Err(ConversionError::NotNumeric),
    }
}

/// The length of a string value in UTF-16 code units.
pub fn string_length(v: &JsValue) -> (r: usize)
    requires
        v@ is Text,
    ensures
        r == v@->Text_0.len(),
{
    match v {
        JsValue::Text(s) => s.len(),
        _ => 0,
    }
}

/// Copies a string value's code units into the front of a caller-supplied
/// buffer of at least the string's length: exactly the string's length of
/// code units are written, byte for byte, no terminator, and the rest of
/// the buffer keeps what it held.
pub fn copy_string(v: &JsValue, buffer: &mut Vec<u16>)
    requires
        v@ is Text,
        old(buffer)@.len() >= v@->Text_0.len(),
    ensures
        final(buffer)@.len() == old(buffer)@.len(),
        final(buffer)@.subrange(0, v@->Text_0.len() as int) == v@->Text_0,
        final(buffer)@.subrange(v@->Text_0.len() as int, old(buffer)@.len() as int) == old(
            buffer,
        )@.subrange(v@->Text_0.len() as int, old(buffer)@.len() as int),
{
    match v {
        JsValue::Text(s) => {
            let mut i: usize = 0;
            while i < s.len()
                invariant
                    *v == JsValue::Text(*s),
                    v@ is Text,
                    s@ == v@->Text_0,
                    i <= s@.len(),
                    buffer@.len() == old(buffer)@.len() >= s@.len(),
                    forall|j: int| 0 <= j < i ==> buffer@[j] == s@[j],
                    forall|j: int| i <= j < buffer@.len() ==> buffer@[j] == old(buffer)@[j],
                decreases s@.len() - i,
            {
                let c = s[i];
                buffer.set(i, c);
                i = i + 1;
            }
            proof {
                assert(buffer@.subrange(0, s@.len() as int) =~= s@);
                assert(buffer@.subrange(s@.len() as int, buffer@.len() as int) =~= old(
                    buffer,
                )@.subrange(s@.len() as int, old(buffer)@.len() as int));
            }
        },
        _ => {},
    }
}

/// The element count of an array value.
pub fn array_length(v: &JsValue) -> (r: u32)
    requires
        v@ is Arr,
        wf_val(v@),
    ensures
        r == v@->Arr_0.len(),
{
    match v {
        JsValue::Arr(elems) => {
            proof {
                lemma_vals_of_char(elems@);
            }
            elems.len() as u32
        },
        _ => 0,
    }
}

/// The element at an index, copied out; an index at or past the length
/// reads as undefined, as the engine answers.
pub fn get_index(v: &JsValue, index: u32) -> (r: JsValue)
    requires
        v@ is Arr,
    ensures
        index < v@->Arr_0.len() ==> r@ == v@->Arr_0[index as int],
        index >= v@->Arr_0.len() ==> r@ == Val::Undefined,
{
    match v {
        JsValue::Arr(elems) => {
            proof {
                lemma_vals_of_char(elems@);
            }
            if (index as usize) < elems.len() {
                copy_value(&elems[index as usize])
            } else {
                JsValue::Undefined
            }
        },
        _ => JsValue::Undefined,
    }
}

/// Writes the element at an index. An index past the current length grows
/// the array, filling the gap with undefined, as the engine does; the
/// index stays below the engine's array-length ceiling.
pub fn set_index(v: &mut JsValue, index: u32, value: JsValue)
    requires
        old(v)@ is Arr,
        wf_val(old(v)@),
        wf_val(value@),
        index < 0xffff_ffffu32,
    ensures
        final(v)@ is Arr,
        wf_val(final(v)@),
        index < old(v)@->Arr_0.len() ==> final(v)@->Arr_0 == old(v)@->Arr_0.update(
            index as int,
            value@,
        ),
        index >= old(v)@->Arr_0.len() ==> final(v)@->Arr_0 == old(v)@->Arr_0 + Seq::new(
            (index - old(v)@->Arr_0.len()) as nat,
            |i: int| Val::Undefined,
        ) + seq![value@],
{
    match v {
        JsValue::Arr(elems) => {
            proof {
                lemma_vals_of_char(elems@);
                lemma_wf_list_char(vals_of(elems@));
            }
            let ghost old_elems = elems@;
            if (index as usize) < elems.len() {
                let _ = elems.remove(index as usize);
                elems.insert(index as usize, value);
                proof {
                    lemma_vals_of_char(elems@);
                    assert(vals_of(elems@) =~= vals_of(old_elems).update(index as int, value@));
                    lemma_wf_list_char(vals_of(elems@));
                }
            } else {
                while elems.len() < index as usize
                    invariant
                        old_elems.len() <= elems@.len() <= index as nat,
                        index < 0xffff_ffffu32,
                        elems@.subrange(0, old_elems.len() as int) == old_elems,
                        forall|j: int|
                            old_elems.len() <= j < elems@.len() ==> elems@[j]
                                == JsValue::Undefined,
                    decreases index as nat - elems@.len(),
                {
                    elems.push(JsValue::Undefined);
                    proof {
                        assert(elems@.subrange(0, old_elems.len() as int) =~= old_elems);
                    }
                }
                elems.push(value);
                proof {
                    lemma_vals_of_char(elems@);
                    lemma_vals_of_char(old_elems);
                    assert(vals_of(elems@) =~= vals_of(old_elems) + Seq::new(
                        (index - old_elems.len()) as nat,
                        |i: int| Val::Undefined,
                    ) + seq![value@]);
                    lemma_wf_list_char(vals_of(elems@));
                }
            }
        },
        _ => {},
    }
}

/// No two properties carry the same name: what every engine object
/// guarantees of its own property list.
pub open spec fn names_distinct(props: Seq<(Seq<u16>, Val)>) -> bool {
    forall|i: int, j: int| 0 <= i < j < props.len() ==> (#[trigger] props[i]).0 != (
    #[trigger] props[j]).0
}

/// The value a property list gives a name: the first property carrying
/// the name, or nothing.
pub open spec fn find_prop(props: Seq<(Seq<u16>, Val)>, name: Seq<u16>) -> Option<Val>
    decreases props.len(),
{
    if props.len() == 0 {
        None
    } else if props[0].0 == name {
        Some(props[0].1)
    } else {
        find_prop(props.subrange(1, props.len() as int), name)
    }
}

/// A property list after writing a name: the first property carrying the
/// name is given the new value; a name not yet present is appended.
pub open spec fn set_prop(props: Seq<(Seq<u16>, Val)>, name: Seq<u16>, value: Val) -> Seq<
    (Seq<u16>, Val),
>
    decreases props.len(),
{
    if props.len() == 0 {
        seq![(name, value)]
    } else if props[0].0 == name {
        props.update(0, (name, value))
    } else {
        seq![props[0]] + set_prop(props.subrange(1, props.len() as int), name, value)
    }
}

pub proof fn lemma_find_prop_at(s: Seq<(Seq<u16>, Val)>, name: Seq<u16>, j: int)
    requires
        0 <= j < s.len(),
        s[j].0 == name,
        forall|i: int| 0 <= i < j ==> (#[trigger] s[i]).0 != name,
    ensures
        find_prop(s, name) == Some(s[j].1),
    decreases j,
{
    if j > 0 {
        let t = s.subrange(1, s.len() as int);
        assert(forall|i: int| 0 <= i < j - 1 ==> (#[trigger] t[i]).0 != name);
        lemma_find_prop_at(t, name, j - 1);
    }
}

pub proof fn lemma_find_prop_none(s: Seq<(Seq<u16>, Val)>, name: Seq<u16>)
    requires
        forall|i: int| 0 <= i < s.len() ==> (#[trigger] s[i]).0 != name,
    ensures
        find_prop(s, name) is None,
    decreases s.len(),
{
    if s.len() != 0 {
        let t = s.subrange(1, s.len() as int);
        assert(forall|i: int| 0 <= i < t.len() ==> (#[trigger] t[i]).0 != name);
        lemma_find_prop_none(t, name);
    }
}

pub proof fn lemma_set_prop_at(s: Seq<(Seq<u16>, Val)>, name: Seq<u16>, value: Val, j: int)
    requires
        0 <= j < s.len(),
        s[j].0 == name,
        forall|i: int| 0 <= i < j ==> (#[trigger] s[i]).0 != name,
    ensures
        set_prop(s, name, value) == s.update(j, (name, value)),
    decreases j,
{
    if j == 0 {
        assert(s.update(0, (name, value)) =~= s.update(0, (name, value)));
    } else {
        let t = s.subrange(1, s.len() as int);
        assert(forall|i: int| 0 <= i < j - 1 ==> (#[trigger] t[i]).0 != name);
        lemma_set_prop_at(t, name, value, j - 1);
        assert(seq![s[0]] + t.update(j - 1, (name, value)) =~= s.update(j, (name, value)));
    }
}

pub proof fn lemma_set_prop_none(s: Seq<(Seq<u16>, Val)>, name: Seq<u16>, value: Val)
    requires
        forall|i: int| 0 <= i < s.len() ==> (#[trigger] s[i]).0 != name,
    ensures
        set_prop(s, name, value) == s.push((name, value)),
    decreases s.len(),
{
    if s.len() == 0 {
        assert(seq![(name, value)] =~= s.push((name, value)));
    } else {
        let t = s.subrange(1, s.len() as int);
        assert(forall|i: int| 0 <= i < t.len() ==> (#[trigger] t[i]).0 != name);
        lemma_set_prop_none(t, name, value);
        assert(seq![s[0]] + t.push((name, value)) =~= s.push((name, value)));
    }
}

/// Compares two UTF-16 payloads for equality of content.
pub fn code_units_eq(a: &Vec<u16>, b: &Vec<u16>) -> (r: bool)
    ensures
        r == (a@ == b@),
{
    if a.len() != b.len() {
        return false;
    }
    let mut i: usize = 0;
    while i < a.len()
        invariant
            a@.len() == b@.len(),
            i <= a@.len(),
            forall|j: int| 0 <= j < i ==> a@[j] == b@[j],
        decreases a@.len() - i,
    {
        if a[i] != b[i] {
            return false;
        }
        i = i + 1;
    }
    proof {
        assert(a@ =~= b@);
    }
    true
}

/// The names of an object's own properties, in the order the object
/// holds them, as an array of string values: the engine-defined
/// enumeration order of this model, stable within one call.
pub fn own_property_names(v: &JsValue) -> (r: JsValue)
    requires
        v@ is Obj,
    ensures
        r@ == Val::Arr(v@->Obj_0.map_values(|p: (Seq<u16>, Val)| Val::Text(p.0))),
        v@->Obj_0.len() <= 0xffff_ffff ==> wf_val(r@),
        names_distinct(v@->Obj_0) ==> (forall|i: int, j: int|
            0 <= i < j < r@->Arr_0.len() ==> r@->Arr_0[i] != r@->Arr_0[j]),
{
    match v {
        JsValue::Obj(props) => {
            proof {
                lemma_props_of_char(props@);
            }
            let mut out: Vec<JsValue> = Vec::new();
            let mut i: usize = 0;
            while i < props.len()
                invariant
                    *v == JsValue::Obj(*props),
                    i <= props@.len(),
                    out@.len() == i as nat,
                    props_of(props@).len() == props@.len(),
                    forall|j: int|
                        0 <= j < props@.len() ==> props_of(props@)[j] == (
                            props@[j].name@,
                            val_of(props@[j].value),
                        ),
                    forall|j: int|
                        0 <= j < i ==> (#[trigger] out@[j])@ == Val::Text(props_of(props@)[j].0),
                decreases props@.len() - i,
            {
                let name = crate::writer::copy_code_units(&props[i].name);
                out.push(JsValue::Text(name));
                i = i + 1;
            }
            let r = JsValue::Arr(out);
            proof {
                lemma_vals_of_char(out@);
                assert(vals_of(out@) =~= props_of(props@).map_values(
                    |p: (Seq<u16>, Val)| Val::Text(p.0),
                ));
                if props_of(props@).len() <= 0xffff_ffff {
                    lemma_wf_list_char(vals_of(out@));
                }
            }
            r
        },
        _ => JsValue::Undefined,
    }
}

/// The value of the named property, copied out; a name the object does
/// not carry reads as undefined, as the engine answers.
pub fn get_property(v: &JsValue, name: &Vec<u16>) -> (r: JsValue)
    requires
        v@ is Obj,
    ensures
        r@ == (match find_prop(v@->Obj_0, name@) {
            Some(value) => value,
            None => Val::Undefined,
        }),
{
    match v {
        JsValue::Obj(props) => {
            proof {
                lemma_props_of_char(props@);
            }
            let mut i: usize = 0;
            while i < props.len()
                invariant
                    *v == JsValue::Obj(*props),
                    i <= props@.len(),
                    props_of(props@).len() == props@.len(),
                    forall|j: int|
                        0 <= j < props@.len() ==> props_of(props@)[j] == (
                            props@[j].name@,
                            val_of(props@[j].value),
                        ),
                    forall|j: int| 0 <= j < i ==> (#[trigger] props_of(props@)[j]).0 != name@,
                decreases props@.len() - i,
            {
                if code_units_eq(&props[i].name, name) {
                    let r = copy_value(&props[i].value);
                    proof {
                        lemma_find_prop_at(props_of(props@), name@, i as int);
                    }
                    return r;
                }
                i = i + 1;
            }
            proof {
                lemma_find_prop_none(props_of(props@), name@);
            }
            JsValue::Undefined
        },
        _ => JsValue::Undefined,
    }
}

/// The index of the first property carrying a name, if any.
pub fn find_property_index(props: &Vec<Property>, name: &Vec<u16>) -> (r: Option<usize>)
    ensures
        match r {
            Some(i) => i < props@.len() && props@[i as int].name@ == name@ && (forall|j: int|
                0 <= j < i ==> (#[trigger] props@[j]).name@ != name@),
            None => forall|j: int| 0 <= j < props@.len() ==> (#[trigger] props@[j]).name@ != name@,
        },
{
    let mut i: usize = 0;
    while i < props.len()
        invariant
            i <= props@.len(),
            forall|j: int| 0 <= j < i ==> (#[trigger] props@[j]).name@ != name@,
        decreases props@.len() - i,
    {
        if code_units_eq(&props[i].name, name) {
            return Some(i);
        }
        i = i + 1;
    }
    None
}

/// Writes the named property: the first property carrying the name takes
/// the new value, and a name not yet present is appended, keeping the
/// object's enumeration order for the names it already had.
pub fn set_property(v: &mut JsValue, name: &Vec<u16>, value: JsValue)
    requires
        old(v)@ is Obj,
    ensures
        final(v)@ is Obj,
        final(v)@->Obj_0 == set_prop(old(v)@->Obj_0, name@, value@),
        names_distinct(old(v)@->Obj_0) ==> names_distinct(final(v)@->Obj_0),
{
    match v {
        JsValue::Obj(props) => {
            proof {
                lemma_props_of_char(props@);
            }
            let ghost old_props = props@;
            let found = find_property_index(props, name);
            let owned_name = crate::writer::copy_code_units(name);
            match found {
                Some(i) => {
                    let _ = props.remove(i);
                    props.insert(i, Property { name: owned_name, value });
                    proof {
                        assert(forall|j: int|
                            0 <= j < i ==> (#[trigger] props_of(old_props)[j]).0 != name@);
                        lemma_set_prop_at(props_of(old_props), name@, value@, i as int);
                        lemma_props_of_char(props@);
                        assert(props_of(props@) =~= props_of(old_props).update(
                            i as int,
                            (name@, value@),
                        ));
                        // the written slot keeps its name, so the name list
                        // is unchanged and distinctness carries over
                        assert(forall|j: int|
                            0 <= j < props_of(props@).len() ==> (#[trigger] props_of(
                                props@,
                            )[j]).0 == props_of(old_props)[j].0);
                    }
                },
                None => {
                    props.push(Property { name: owned_name, value });
                    proof {
                        assert(forall|j: int|
                            0 <= j < old_props.len() ==> (#[trigger] props_of(old_props)[j]).0
                                != name@);
                        lemma_set_prop_none(props_of(old_props), name@, value@);
                        lemma_props_of_char(props@);
                        assert(props_of(props@) =~= props_of(old_props).push((name@, value@)));
                        // the appended name was carried by no property before
                        assert(forall|j: int|
                            0 <= j < old_props.len() ==> (#[trigger] props_of(props@)[j]).0
                                == props_of(old_props)[j].0);
                    }
                },
            }
        },
        _ => {},
    }
}

} // verus!
