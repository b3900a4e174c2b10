//! The value-exchange traversal: walks a value and streams it into a
//! host-supplied writer, one call per value shape, depth first. Only data
//! values — no function values anywhere in the graph — are traversed; the
//! walk refuses anything else before writing a single event. The value
//! model is a tree, so a traversal always terminates; the engine-side graph
//! is copied out into this model before it is emitted.

use vstd::prelude::*;
use crate::value::{JsValue, Val, val_of, vals_of, props_of};
use crate::writer::{Event, Writer};

verus! {

/// Engine size limits hold everywhere in the value: every array is short
/// enough for its length to cross the boundary as 32 unsigned bits.
pub open spec fn wf_val(v: Val) -> bool
    decreases v,
{
    match v {
        Val::Arr(elems) => elems.len() <= 0xffff_ffff && wf_list(elems),
        Val::Obj(props) => wf_props(props),
        _ => true,
    }
}

pub open spec fn wf_list(s: Seq<Val>) -> bool
    decreases s,
{
    if s.len() == 0 {
        true
    } else {
        wf_val(s[0]) && wf_list(s.subrange(1, s.len() as int))
    }
}

pub open spec fn wf_props(s: Seq<(Seq<u16>, Val)>) -> bool
    decreases s,
    via wf_props_decreases
{
    if s.len() == 0 {
        true
    } else {
        wf_val(s[0].1) && wf_props(s.subrange(1, s.len() as int))
    }
}

#[via_fn]
proof fn wf_props_decreases(s: Seq<(Seq<u16>, Val)>) {
    if s.len() != 0 {
        assert(decreases_to!(s => s[0]));
        assert(decreases_to!(s[0] => s[0].1));
    }
}

/// A data value: one the writer protocol can carry. Function values are
/// not data, wherever they sit in the graph.
pub open spec fn is_data(v: Val) -> bool
    decreases v,
{
    match v {
        Val::Fun(_) => false,
        Val::Arr(elems) => is_data_list(elems),
        Val::Obj(props) => is_data_props(props),
        _ => true,
    }
}

pub open spec fn is_data_list(s: Seq<Val>) -> bool
    decreases s,
{
    if s.len() == 0 {
        true
    } else {
        is_data(s[0]) && is_data_list(s.subrange(1, s.len() as int))
    }
}

pub open spec fn is_data_props(s: Seq<(Seq<u16>, Val)>) -> bool
    decreases s,
    via is_data_props_decreases
{
    if s.len() == 0 {
        true
    } else {
        is_data(s[0].1) && is_data_props(s.subrange(1, s.len() as int))
    }
}

#[via_fn]
proof fn is_data_props_decreases(s: Seq<(Seq<u16>, Val)>) {
    if s.len() != 0 {
        assert(decreases_to!(s => s[0]));
        assert(decreases_to!(s[0] => s[0].1));
    }
}

/// The exact writer-call sequence a data value traverses to: a leaf is one
/// call; an array is its start call carrying the length, the elements'
/// sequences in index order, and the end call; an object is its start
/// call, then for each property the name call immediately followed by the
/// value's sequence, then the end call.
pub open spec fn events_of(v: Val) -> Seq<Event>
    decreases v,
{
    match v {
        Val::Undefined => seq![Event::Undefined],
        Val::Null => seq![Event::Null],
        Val::Bool(b) => if b {
            seq![Event::True]
        } else {
            seq![Event::False]
        },
        Val::Int(n) => seq![Event::Int(n as i64)],
        Val::Num(bits) => seq![Event::Num(bits)],
        Val::Text(s) => seq![Event::Text(s)],
        Val::Arr(elems) => seq![Event::StartArr(elems.len() as u32)] + events_of_list(elems)
            + seq![Event::EndArr],
        Val::Obj(props) => seq![Event::StartObj] + events_of_props(props) + seq![Event::EndObj],
        Val::Fun(_) => Seq::empty(),
    }
}

pub open spec fn events_of_list(s: Seq<Val>) -> Seq<Event>
    decreases s,
{
    if s.len() == 0 {
        Seq::empty()
    } else {
        events_of(s[0]) + events_of_list(s.subrange(1, s.len() as int))
    }
}

pub open spec fn events_of_props(s: Seq<(Seq<u16>, Val)>) -> Seq<Event>
    decreases s,
    via events_of_props_decreases
{
    if s.len() == 0 {
        Seq::empty()
    } else {
        seq![Event::PropName(s[0].0)] + events_of(s[0].1) + events_of_props(
            s.subrange(1, s.len() as int),
        )
    }
}

#[via_fn]
proof fn events_of_props_decreases(s: Seq<(Seq<u16>, Val)>) {
    if s.len() != 0 {
        assert(decreases_to!(s => s[0]));
        assert(decreases_to!(s[0] => s[0].1));
    }
}

/// Concatenating element lists concatenates their event sequences.
pub proof fn lemma_events_of_list_append(a: Seq<Val>, b: Seq<Val>)
    ensures
        events_of_list(a + b) == events_of_list(a) + events_of_list(b),
    decreases a.len(),
{
    if a.len() == 0 {
        assert(a + b =~= b);
        assert(events_of_list(a) == Seq::<Event>::empty());
        assert(events_of_list(a) + events_of_list(b) =~= events_of_list(b));
    } else {
        let t = a.subrange(1, a.len() as int);
        lemma_events_of_list_append(t, b);
        let c = a + b;
        assert(c.len() != 0 && c[0] == a[0]);
        assert(c.subrange(1, c.len() as int) =~= t + b);
        assert(events_of_list(c) == events_of(a[0]) + events_of_list(t + b));
        assert(events_of(a[0]) + (events_of_list(t) + events_of_list(b)) =~= (events_of(a[0])
            + events_of_list(t)) + events_of_list(b));
    }
}

/// One more element extends the event sequence by that element's events.
pub proof fn lemma_events_of_list_step(s: Seq<Val>, i: int)
    requires
        0 <= i < s.len(),
    ensures
        events_of_list(s.subrange(0, i + 1)) == events_of_list(s.subrange(0, i)) + events_of(
            s[i],
        ),
{
    let one = seq![s[i]];
    assert(s.subrange(0, i + 1) =~= s.subrange(0, i) + one);
    lemma_events_of_list_append(s.subrange(0, i), one);
    assert(one.subrange(1, 1) =~= Seq::<Val>::empty());
    assert(events_of_list(one) == events_of(s[i]) + events_of_list(one.subrange(1, 1)));
    assert(events_of_list(one) =~= events_of(s[i]));
}

/// Concatenating property lists concatenates their event sequences.
pub proof fn lemma_events_of_props_append(a: Seq<(Seq<u16>, Val)>, b: Seq<(Seq<u16>, Val)>)
    ensures
        events_of_props(a + b) == events_of_props(a) + events_of_props(b),
    decreases a.len(),
{
    if a.len() == 0 {
        assert(a + b =~= b);
        assert(events_of_props(a) == Seq::<Event>::empty());
        assert(events_of_props(a) + events_of_props(b) =~= events_of_props(b));
    } else {
        let t = a.subrange(1, a.len() as int);
        lemma_events_of_props_append(t, b);
        let c = a + b;
        assert(c.len() != 0 && c[0] == a[0]);
        assert(c.subrange(1, c.len() as int) =~= t + b);
        let head = seq![Event::PropName(a[0].0)] + events_of(a[0].1);
        assert(events_of_props(c) == head + events_of_props(t + b));
        assert(head + (events_of_props(t) + events_of_props(b)) =~= (head + events_of_props(t))
            + events_of_props(b));
    }
}

/// One more property extends the event sequence by its name event and its
/// value's events.
pub proof fn lemma_events_of_props_step(s: Seq<(Seq<u16>, Val)>, i: int)
    requires
        0 <= i < s.len(),
    ensures
        events_of_props(s.subrange(0, i + 1)) == events_of_props(s.subrange(0, i)) + seq![
            Event::PropName(s[i].0),
        ] + events_of(s[i].1),
{
    let one = seq![s[i]];
    assert(s.subrange(0, i + 1) =~= s.subrange(0, i) + one);
    lemma_events_of_props_append(s.subrange(0, i), one);
    assert(one.subrange(1, 1) =~= Seq::<(Seq<u16>, Val)>::empty());
    assert(events_of_props(one) == seq![Event::PropName(s[i].0)] + events_of(s[i].1)
        + events_of_props(one.subrange(1, 1)));
    assert(events_of_props(one) =~= seq![Event::PropName(s[i].0)] + events_of(s[i].1));
    assert(events_of_props(s.subrange(0, i)) + events_of_props(one) =~= events_of_props(
        s.subrange(0, i),
    ) + seq![Event::PropName(s[i].0)] + events_of(s[i].1));
}

/// `vals_of` maps element by element.
pub proof fn lemma_vals_of_char(s: Seq<JsValue>)
    ensures
        vals_of(s).len() == s.len(),
        forall|i: int| 0 <= i < s.len() ==> vals_of(s)[i] == val_of(s[i]),
    decreases s.len(),
{
    if s.len() != 0 {
        let t = s.subrange(1, s.len() as int);
        lemma_vals_of_char(t);
        assert forall|i: int| 0 <= i < s.len() implies vals_of(s)[i] == val_of(s[i]) by {
            if i > 0 {
                assert(vals_of(s)[i] == vals_of(t)[i - 1]);
                assert(t[i - 1] == s[i]);
            }
        }
    }
}

/// `props_of` maps property by property.
pub proof fn lemma_props_of_char(s: Seq<crate::value::Property>)
    ensures
        props_of(s).len() == s.len(),
        forall|i: int| 0 <= i < s.len() ==> props_of(s)[i] == (s[i].name@, val_of(s[i].value)),
    decreases s.len(),
{
    if s.len() != 0 {
        let t = s.subrange(1, s.len() as int);
        lemma_props_of_char(t);
        assert forall|i: int| 0 <= i < s.len() implies props_of(s)[i] == (
            s[i].name@,
            val_of(s[i].value),
        ) by {
            if i > 0 {
                assert(props_of(s)[i] == props_of(t)[i - 1]);
                assert(t[i - 1] == s[i]);
            }
        }
    }
}

/// An element list is data exactly when each element is.
pub proof fn lemma_is_data_list_char(s: Seq<Val>)
    ensures
        is_data_list(s) <==> (forall|i: int| 0 <= i < s.len() ==> is_data(s[i])),
    decreases s.len(),
{
    if s.len() != 0 {
        let t = s.subrange(1, s.len() as int);
        lemma_is_data_list_char(t);
        assert(forall|i: int| 0 < i < s.len() ==> t[i - 1] == #[trigger] s[i]);
        if is_data_list(s) {
            assert forall|i: int| 0 <= i < s.len() implies is_data(s[i]) by {
                if i > 0 {
                    assert(is_data(t[i - 1]));
                }
            }
        }
        if forall|i: int| 0 <= i < s.len() ==> is_data(s[i]) {
            assert forall|i: int| 0 <= i < t.len() implies is_data(t[i]) by {
                assert(t[i] == s[i + 1]);
            }
        }
    }
}

/// A property list is data exactly when each property's value is.
pub proof fn lemma_is_data_props_char(s: Seq<(Seq<u16>, Val)>)
    ensures
        is_data_props(s) <==> (forall|i: int| 0 <= i < s.len() ==> is_data(s[i].1)),
    decreases s.len(),
{
    if s.len() != 0 {
        let t = s.subrange(1, s.len() as int);
        lemma_is_data_props_char(t);
        assert(forall|i: int| 0 < i < s.len() ==> t[i - 1] == #[trigger] s[i]);
        if is_data_props(s) {
            assert forall|i: int| 0 <= i < s.len() implies is_data(s[i].1) by {
                if i > 0 {
                    assert(is_data(t[i - 1].1));
                }
            }
        }
        if forall|i: int| 0 <= i < s.len() ==> is_data(s[i].1) {
            assert forall|i: int| 0 <= i < t.len() implies is_data(t[i].1) by {
                assert(t[i] == s[i + 1]);
            }
        }
    }
}

/// An element list is within limits exactly when each element is.
pub proof fn lemma_wf_list_char(s: Seq<Val>)
    ensures
        wf_list(s) <==> (forall|i: int| 0 <= i < s.len() ==> wf_val(s[i])),
    decreases s.len(),
{
    if s.len() != 0 {
        let t = s.subrange(1, s.len() as int);
        lemma_wf_list_char(t);
        assert(forall|i: int| 0 < i < s.len() ==> t[i - 1] == #[trigger] s[i]);
        if wf_list(s) {
            assert forall|i: int| 0 <= i < s.len() implies wf_val(s[i]) by {
                if i > 0 {
                    assert(wf_val(t[i - 1]));
                }
            }
        }
        if forall|i: int| 0 <= i < s.len() ==> wf_val(s[i]) {
            assert forall|i: int| 0 <= i < t.len() implies wf_val(t[i]) by {
                assert(t[i] == s[i + 1]);
            }
        }
    }
}

/// A property list is within limits exactly when each property's value is.
pub proof fn lemma_wf_props_char(s: Seq<(Seq<u16>, Val)>)
    ensures
        wf_props(s) <==> (forall|i: int| 0 <= i < s.len() ==> wf_val(s[i].1)),
    decreases s.len(),
{
    if s.len() != 0 {
        let t = s.subrange(1, s.len() as int);
        lemma_wf_props_char(t);
        assert(forall|i: int| 0 < i < s.len() ==> t[i - 1] == #[trigger] s[i]);
        if wf_props(s) {
            assert forall|i: int| 0 <= i < s.len() implies wf_val(s[i].1) by {
                if i > 0 {
                    assert(wf_val(t[i - 1].1));
                }
            }
        }
        if forall|i: int| 0 <= i < s.len() ==> wf_val(s[i].1) {
            assert forall|i: int| 0 <= i < t.len() implies wf_val(t[i].1) by {
                assert(t[i] == s[i + 1]);
            }
        }
    }
}

/// What the traversal refuses: a value graph that holds a function value.
#[derive(Clone, Copy, PartialEq, Eq, Structural, Debug)]
pub enum EmitError {
    UnsupportedKind,
}

/// Decides whether a value is a data value the traversal accepts.
pub fn is_data_value(v: &JsValue) -> (b: bool)
    ensures
        b == is_data(v@),
    decreases v,
{
    match v {
        JsValue::Fun(_) => false,
        JsValue::Arr(elems) => {
            proof {
                lemma_vals_of_char(elems@);
                lemma_is_data_list_char(vals_of(elems@));
            }
            let mut i: usize = 0;
            while i < elems.len()
                invariant
                    *v == JsValue::Arr(*elems),
                    i <= elems@.len(),
                    forall|j: int| 0 <= j < i ==> is_data(#[trigger] vals_of(elems@)[j]),
                    vals_of(elems@).len() == elems@.len(),
                    forall|j: int|
                        0 <= j < elems@.len() ==> vals_of(elems@)[j] == val_of(elems@[j]),
                decreases elems@.len() - i,
            {
                proof {
                    assert(decreases_to!(*v => v->Arr_0));
                    assert(v->Arr_0 == *elems);
                    assert(decreases_to!(*elems => elems@));
                    assert(decreases_to!(elems@ => elems@[i as int]));
                }
                if !is_data_value(&elems[i]) {
                    proof {
                        lemma_vals_of_char(elems@);
                        lemma_is_data_list_char(vals_of(elems@));
                        assert(!is_data(vals_of(elems@)[i as int]));
                    }
                    return false;
                }
                i = i + 1;
            }
            proof {
                lemma_vals_of_char(elems@);
                lemma_is_data_list_char(vals_of(elems@));
            }
            true
        },
        JsValue::Obj(props) => {
            proof {
                lemma_props_of_char(props@);
                lemma_is_data_props_char(props_of(props@));
            }
            let mut i: usize = 0;
            while i < props.len()
                invariant
                    *v == JsValue::Obj(*props),
                    i <= props@.len(),
                    forall|j: int| 0 <= j < i ==> is_data(#[trigger] props_of(props@)[j].1),
                    props_of(props@).len() == props@.len(),
                    forall|j: int|
                        0 <= j < props@.len() ==> props_of(props@)[j] == (
                            props@[j].name@,
                            val_of(props@[j].value),
                        ),
                decreases props@.len() - i,
            {
                proof {
                    assert(decreases_to!(*v => v->Obj_0));
                    assert(v->Obj_0 == *props);
                    assert(decreases_to!(*props => props@));
                    assert(decreases_to!(props@ => props@[i as int]));
                    assert(decreases_to!(props@[i as int] => props@[i as int].value));
                }
                if !is_data_value(&props[i].value) {
                    proof {
                        lemma_props_of_char(props@);
                        lemma_is_data_props_char(props_of(props@));
                        assert(!is_data(props_of(props@)[i as int].1));
                    }
                    return false;
                }
                i = i + 1;
            }
            proof {
                lemma_props_of_char(props@);
                lemma_is_data_props_char(props_of(props@));
            }
            true
        },
        _ => true,
    }
}

/// Streams a data value into the writer: exactly the event sequence
/// `events_of` describes is appended to the writer's log. A value that is
/// not data — a function value somewhere in the graph — is refused before
/// any event is written, and the log is untouched.
pub fn emit<W: Writer>(v: &JsValue, w: &mut W) -> (r: Result<(), EmitError>)
    requires
        wf_val(v@),
    ensures
        is_data(v@) ==> r == Ok::<(), EmitError>(()) && final(w).log() == old(w).log()
            + events_of(v@),
        !is_data(v@) ==> r == Err::<(), EmitError>(EmitError::UnsupportedKind) && final(w).log()
            == old(w).log(),
{
    if !is_data_value(v) {
        return Err(EmitError::UnsupportedKind);
    }
    emit_data(v, w);
    Ok(())
}

fn emit_data<W: Writer>(v: &JsValue, w: &mut W)
    requires
        wf_val(v@),
        is_data(v@),
    ensures
        final(w).log() == old(w).log() + events_of(v@),
    decreases v,
{
    match v {
        JsValue::Undefined => {
            w.write_undefined();
            proof {
                assert(final(w).log() =~= old(w).log() + events_of(v@));
            }
        },
        JsValue::Null => {
            w.write_null();
            proof {
                assert(final(w).log() =~= old(w).log() + events_of(v@));
            }
        },
        JsValue::Bool(b) => {
            if *b {
                w.write_true();
            } else {
                w.write_false();
            }
            proof {
                assert(final(w).log() =~= old(w).log() + events_of(v@));
            }
        },
        JsValue::Int(n) => {
            w.write_int(*n as i64);
            proof {
                assert(final(w).log() =~= old(w).log() + events_of(v@));
            }
        },
        JsValue::Num(bits) => {
            w.write_number_bits(*bits);
            proof {
                assert(final(w).log() =~= old(w).log() + events_of(v@));
            }
        },
        JsValue::Text(s) => {
            w.write_string(s);
            proof {
                assert(final(w).log() =~= old(w).log() + events_of(v@));
            }
        },
        JsValue::Arr(elems) => {
            proof {
                lemma_vals_of_char(elems@);
                lemma_is_data_list_char(vals_of(elems@));
                lemma_wf_list_char(vals_of(elems@));
            }
            let ghost vs = vals_of(elems@);
            w.write_start_array(elems.len() as u32);
            let mut i: usize = 0;
            proof {
                assert(vs.subrange(0, 0) =~= Seq::<Val>::empty());
                assert(w.log() =~= old(w).log() + seq![Event::StartArr(elems@.len() as u32)]
                    + events_of_list(vs.subrange(0, 0)));
            }
            while i < elems.len()
                invariant
                    *v == JsValue::Arr(*elems),
                    i <= elems@.len(),
                    vs == vals_of(elems@),
                    vs.len() == elems@.len(),
                    forall|j: int| 0 <= j < elems@.len() ==> vs[j] == val_of(elems@[j]),
                    forall|j: int| 0 <= j < elems@.len() ==> is_data(#[trigger] vs[j]),
                    forall|j: int| 0 <= j < elems@.len() ==> wf_val(#[trigger] vs[j]),
                    w.log() == old(w).log() + seq![Event::StartArr(elems@.len() as u32)]
                        + events_of_list(vs.subrange(0, i as int)),
                decreases elems@.len() - i,
            {
                proof {
                    assert(decreases_to!(*v => v->Arr_0));
                    assert(v->Arr_0 == *elems);
                    assert(decreases_to!(*elems => elems@));
                    assert(decreases_to!(elems@ => elems@[i as int]));
                }
                proof {
                    assert(vs[i as int] == val_of(elems@[i as int]));
                    assert(wf_val(vs[i as int]) && is_data(vs[i as int]));
                }
                emit_data(&elems[i], w);
                proof {
                    lemma_events_of_list_step(vs, i as int);
                    assert(w.log() =~= old(w).log() + seq![
                        Event::StartArr(elems@.len() as u32),
                    ] + events_of_list(vs.subrange(0, i + 1 as int)));
                }
                i = i + 1;
            }
            w.write_end_array();
            proof {
                assert(vs.subrange(0, vs.len() as int) =~= vs);
                assert(final(w).log() =~= old(w).log() + events_of(v@));
            }
        },
        JsValue::Obj(props) => {
            proof {
                lemma_props_of_char(props@);
                lemma_is_data_props_char(props_of(props@));
                lemma_wf_props_char(props_of(props@));
            }
            let ghost ps = props_of(props@);
            w.write_start_object();
            let mut i: usize = 0;
            proof {
                assert(ps.subrange(0, 0) =~= Seq::<(Seq<u16>, Val)>::empty());
                assert(w.log() =~= old(w).log() + seq![Event::StartObj] + events_of_props(
                    ps.subrange(0, 0),
                ));
            }
            while i < props.len()
                invariant
                    *v == JsValue::Obj(*props),
                    i <= props@.len(),
                    ps == props_of(props@),
                    ps.len() == props@.len(),
                    forall|j: int|
                        0 <= j < props@.len() ==> ps[j] == (
                            props@[j].name@,
                            val_of(props@[j].value),
                        ),
                    forall|j: int| 0 <= j < props@.len() ==> is_data(#[trigger] ps[j].1),
                    forall|j: int| 0 <= j < props@.len() ==> wf_val(#[trigger] ps[j].1),
                    w.log() == old(w).log() + seq![Event::StartObj] + events_of_props(
                        ps.subrange(0, i as int),
                    ),
                decreases props@.len() - i,
            {
                w.write_property_name(&props[i].name);
                proof {
                    assert(decreases_to!(*v => v->Obj_0));
                    assert(v->Obj_0 == *props);
                    assert(decreases_to!(*props => props@));
                    assert(decreases_to!(props@ => props@[i as int]));
                    assert(decreases_to!(props@[i as int] => props@[i as int].value));
                }
                proof {
                    assert(ps[i as int] == (props@[i as int].name@, val_of(props@[i as int].value)));
                    assert(wf_val(ps[i as int].1) && is_data(ps[i as int].1));
                }
                emit_data(&props[i].value, w);
                proof {
                    lemma_events_of_props_step(ps, i as int);
                    assert(w.log() =~= old(w).log() + seq![Event::StartObj] + events_of_props(
                        ps.subrange(0, i + 1 as int),
                    ));
                }
                i = i + 1;
            }
            w.write_end_object();
            proof {
                assert(ps.subrange(0, ps.len() as int) =~= ps);
                assert(final(w).log() =~= old(w).log() + events_of(v@));
            }
        },
        JsValue::Fun(_) => {
            proof {
                assert(false);
            }
        },
    }
}

/// Array fidelity: an array's stream is its start call carrying the element
/// count, then each element's own stream in index order, then the end call.
pub proof fn lemma_array_fidelity(elems: Seq<Val>)
    ensures
        events_of(Val::Arr(elems)) == seq![Event::StartArr(elems.len() as u32)]
            + elems.map_values(|ev: Val| events_of(ev)).flatten() + seq![Event::EndArr],
{
    lemma_events_list_is_flatten(elems);
}

proof fn lemma_events_list_is_flatten(s: Seq<Val>)
    ensures
        events_of_list(s) == s.map_values(|ev: Val| events_of(ev)).flatten(),
    decreases s.len(),
{
    let m = s.map_values(|ev: Val| events_of(ev));
    if s.len() == 0 {
        assert(m.len() == 0);
        assert(m.flatten() == Seq::<Event>::empty());
        assert(events_of_list(s) == Seq::<Event>::empty());
    } else {
        let t = s.subrange(1, s.len() as int);
        lemma_events_list_is_flatten(t);
        let tm = t.map_values(|ev: Val| events_of(ev));
        assert(m.drop_first() =~= tm);
        assert(m.first() == events_of(s[0]));
        assert(m.flatten() == m.first() + m.drop_first().flatten());
    }
}

/// Object property pairing: an object's stream is its start call, then for
/// each property — in list order — the name call immediately followed by
/// the value's own stream, then the end call. Names and values pair one to
/// one.
pub proof fn lemma_object_property_pairing(props: Seq<(Seq<u16>, Val)>)
    ensures
        events_of(Val::Obj(props)) == seq![Event::StartObj] + props.map_values(
            |p: (Seq<u16>, Val)| seq![Event::PropName(p.0)] + events_of(p.1),
        ).flatten() + seq![Event::EndObj],
{
    lemma_events_props_is_flatten(props);
}

proof fn lemma_events_props_is_flatten(s: Seq<(Seq<u16>, Val)>)
    ensures
        events_of_props(s) == s.map_values(
            |p: (Seq<u16>, Val)| seq![Event::PropName(p.0)] + events_of(p.1),
        ).flatten(),
    decreases s.len(),
{
    let m = s.map_values(|p: (Seq<u16>, Val)| seq![Event::PropName(p.0)] + events_of(p.1));
    if s.len() == 0 {
        assert(m.len() == 0);
        assert(m.flatten() == Seq::<Event>::empty());
        assert(events_of_props(s) == Seq::<Event>::empty());
    } else {
        let t = s.subrange(1, s.len() as int);
        lemma_events_props_is_flatten(t);
        let tm = t.map_values(|p: (Seq<u16>, Val)| seq![Event::PropName(p.0)] + events_of(p.1));
        assert(m.drop_first() =~= tm);
        assert(m.first() == seq![Event::PropName(s[0].0)] + events_of(s[0].1));
        assert(m.flatten() == m.first() + m.drop_first().flatten());
        assert(events_of_props(s) == seq![Event::PropName(s[0].0)] + events_of(s[0].1)
            + events_of_props(t));
        assert((seq![Event::PropName(s[0].0)] + events_of(s[0].1)) + events_of_props(t) =~= seq![
            Event::PropName(s[0].0),
        ] + events_of(s[0].1) + events_of_props(t));
    }
}

} // verus!
