//! Structural guarantees of the event streams the traversal produces:
//! every start call is closed by exactly one matching end call, in strict
//! last-opened-first-closed order, and the two bracket kinds never cross.

use vstd::prelude::*;
use crate::value::Val;
use crate::writer::Event;
use crate::emit::{is_data, is_data_list, is_data_props, events_of, events_of_list, events_of_props};

verus! {

/// One open bracket on the nesting stack.
#[derive(PartialEq, Eq, Structural)]
pub enum Bracket {
    Arr,
    Obj,
}

/// Runs an event sequence against a stack of open brackets: each start
/// call pushes its kind, each end call pops the matching kind, and the run
/// fails — `None` — the moment an end call arrives whose kind is not on
/// top of the stack.
pub open spec fn nest_run(evs: Seq<Event>, stack: Seq<Bracket>) -> Option<Seq<Bracket>>
    decreases evs.len(),
{
    if evs.len() == 0 {
        Some(stack)
    } else {
        let rest = evs.subrange(1, evs.len() as int);
        match evs[0] {
            Event::StartArr(_) => nest_run(rest, stack.push(Bracket::Arr)),
            Event::EndArr => if stack.len() > 0 && stack.last() == Bracket::Arr {
                nest_run(rest, stack.drop_last())
            } else {
                None
            },
            Event::StartObj => nest_run(rest, stack.push(Bracket::Obj)),
            Event::EndObj => if stack.len() > 0 && stack.last() == Bracket::Obj {
                nest_run(rest, stack.drop_last())
            } else {
                None
            },
            _ => nest_run(rest, stack),
        }
    }
}

/// Running a concatenation runs the two halves in order, the second from
/// wherever the first left the stack.
pub proof fn lemma_nest_run_append(a: Seq<Event>, b: Seq<Event>, stack: Seq<Bracket>)
    ensures
        nest_run(a + b, stack) == (match nest_run(a, stack) {
            Some(s) => nest_run(b, s),
            None => None,
        }),
    decreases a.len(),
{
    if a.len() == 0 {
        assert(a + b =~= b);
    } else {
        let c = a + b;
        let at = a.subrange(1, a.len() as int);
        assert(c[0] == a[0]);
        assert(c.subrange(1, c.len() as int) =~= at + b);
        match a[0] {
            Event::StartArr(_) => {
                lemma_nest_run_append(at, b, stack.push(Bracket::Arr));
            },
            Event::EndArr => {
                if stack.len() > 0 && stack.last() == Bracket::Arr {
                    lemma_nest_run_append(at, b, stack.drop_last());
                }
            },
            Event::StartObj => {
                lemma_nest_run_append(at, b, stack.push(Bracket::Obj));
            },
            Event::EndObj => {
                if stack.len() > 0 && stack.last() == Bracket::Obj {
                    lemma_nest_run_append(at, b, stack.drop_last());
                }
            },
            _ => {
                lemma_nest_run_append(at, b, stack);
            },
        }
    }
}

/// Running a single event makes exactly one stack move.
pub proof fn lemma_nest_run_single(e: Event, stack: Seq<Bracket>)
    ensures
        nest_run(seq![e], stack) == (match e {
            Event::StartArr(_) => Some(stack.push(Bracket::Arr)),
            Event::EndArr => if stack.len() > 0 && stack.last() == Bracket::Arr {
                Some(stack.drop_last())
            } else {
                None::<Seq<Bracket>>
            },
            Event::StartObj => Some(stack.push(Bracket::Obj)),
            Event::EndObj => if stack.len() > 0 && stack.last() == Bracket::Obj {
                Some(stack.drop_last())
            } else {
                None::<Seq<Bracket>>
            },
            _ => Some(stack),
        }),
{
    let one = seq![e];
    assert(one.subrange(1, 1) =~= Seq::<Event>::empty());
    assert(nest_run(Seq::<Event>::empty(), stack.push(Bracket::Arr)) == Some(
        stack.push(Bracket::Arr),
    ));
    assert(nest_run(Seq::<Event>::empty(), stack.push(Bracket::Obj)) == Some(
        stack.push(Bracket::Obj),
    ));
    if stack.len() > 0 {
        assert(nest_run(Seq::<Event>::empty(), stack.drop_last()) == Some(stack.drop_last()));
    }
    assert(nest_run(Seq::<Event>::empty(), stack) == Some(stack));
}

/// Structural balance: the event stream of any data value runs every
/// nesting stack back to itself. Every start call is matched by exactly
/// one end call of the same kind, properly nested, and no end call ever
/// reaches below the brackets that were already open when the value's
/// stream began.
pub proof fn lemma_structural_balance(v: Val, stack: Seq<Bracket>)
    requires
        is_data(v),
    ensures
        nest_run(events_of(v), stack) == Some(stack),
    decreases v,
{
    match v {
        Val::Arr(elems) => {
            let start = seq![Event::StartArr(elems.len() as u32)];
            let body = events_of_list(elems);
            let end = seq![Event::EndArr];
            let opened = stack.push(Bracket::Arr);
            lemma_nest_run_single(start[0], stack);
            assert(nest_run(start, stack) == Some(opened));
            lemma_structural_balance_list(elems, opened);
            lemma_nest_run_single(end[0], opened);
            assert(opened.drop_last() =~= stack);
            assert(nest_run(end, opened) == Some(stack));
            lemma_nest_run_append(start, body, stack);
            lemma_nest_run_append(start + body, end, stack);
            assert(events_of(v) == start + body + end);
        },
        Val::Obj(props) => {
            let start = seq![Event::StartObj];
            let body = events_of_props(props);
            let end = seq![Event::EndObj];
            let opened = stack.push(Bracket::Obj);
            lemma_nest_run_single(start[0], stack);
            assert(nest_run(start, stack) == Some(opened));
            lemma_structural_balance_props(props, opened);
            lemma_nest_run_single(end[0], opened);
            assert(opened.drop_last() =~= stack);
            assert(nest_run(end, opened) == Some(stack));
            lemma_nest_run_append(start, body, stack);
            lemma_nest_run_append(start + body, end, stack);
            assert(events_of(v) == start + body + end);
        },
        _ => {
            let evs = events_of(v);
            assert(evs.len() == 1);
            assert(!(evs[0] is StartArr) && !(evs[0] is EndArr) && !(evs[0] is StartObj) && !(
            evs[0] is EndObj));
            lemma_nest_run_single(evs[0], stack);
            assert(evs =~= seq![evs[0]]);
        },
    }
}

pub proof fn lemma_structural_balance_list(s: Seq<Val>, stack: Seq<Bracket>)
    requires
        is_data_list(s),
    ensures
        nest_run(events_of_list(s), stack) == Some(stack),
    decreases s,
{
    if s.len() != 0 {
        lemma_structural_balance(s[0], stack);
        lemma_structural_balance_list(s.subrange(1, s.len() as int), stack);
        lemma_nest_run_append(
            events_of(s[0]),
            events_of_list(s.subrange(1, s.len() as int)),
            stack,
        );
    }
}

pub proof fn lemma_structural_balance_props(s: Seq<(Seq<u16>, Val)>, stack: Seq<Bracket>)
    requires
        is_data_props(s),
    ensures
        nest_run(events_of_props(s), stack) == Some(stack),
    decreases s,
{
    if s.len() != 0 {
        let name = seq![Event::PropName(s[0].0)];
        let rest = s.subrange(1, s.len() as int);
        lemma_nest_run_single(name[0], stack);
        assert(nest_run(name, stack) == Some(stack));
        assert(decreases_to!(s => s[0]));
        assert(decreases_to!(s[0] => s[0].1));
        lemma_structural_balance(s[0].1, stack);
        lemma_structural_balance_props(rest, stack);
        lemma_nest_run_append(name, events_of(s[0].1), stack);
        lemma_nest_run_append(name + events_of(s[0].1), events_of_props(rest), stack);
        assert(events_of_props(s) == name + events_of(s[0].1) + events_of_props(rest));
    }
}

/// How many events of the stream satisfy a predicate.
pub open spec fn count_matching(evs: Seq<Event>, f: spec_fn(Event) -> bool) -> nat
    decreases evs.len(),
{
    if evs.len() == 0 {
        0
    } else {
        (if f(evs[0]) {
            1nat
        } else {
            0nat
        }) + count_matching(evs.subrange(1, evs.len() as int), f)
    }
}

pub proof fn lemma_count_matching_append(a: Seq<Event>, b: Seq<Event>, f: spec_fn(Event) -> bool)
    ensures
        count_matching(a + b, f) == count_matching(a, f) + count_matching(b, f),
    decreases a.len(),
{
    if a.len() == 0 {
        assert(a + b =~= b);
    } else {
        let c = a + b;
        assert(c[0] == a[0]);
        assert(c.subrange(1, c.len() as int) =~= a.subrange(1, a.len() as int) + b);
        lemma_count_matching_append(a.subrange(1, a.len() as int), b, f);
    }
}

/// Balanced counts: in the stream of any data value, the number of array
/// start calls equals the number of array end calls, and likewise for
/// objects.
pub proof fn lemma_balanced_counts(v: Val)
    requires
        is_data(v),
    ensures
        count_matching(events_of(v), |e: Event| e is StartArr) == count_matching(
            events_of(v),
            |e: Event| e is EndArr,
        ),
        count_matching(events_of(v), |e: Event| e is StartObj) == count_matching(
            events_of(v),
            |e: Event| e is EndObj,
        ),
    decreases v,
{
    let fa = |e: Event| e is StartArr;
    let fea = |e: Event| e is EndArr;
    let fo = |e: Event| e is StartObj;
    let feo = |e: Event| e is EndObj;
    match v {
        Val::Arr(elems) => {
            let start = seq![Event::StartArr(elems.len() as u32)];
            let body = events_of_list(elems);
            let end = seq![Event::EndArr];
            lemma_balanced_counts_list(elems);
            lemma_count_matching_append(start, body, fa);
            lemma_count_matching_append(start + body, end, fa);
            lemma_count_matching_append(start, body, fea);
            lemma_count_matching_append(start + body, end, fea);
            lemma_count_matching_append(start, body, fo);
            lemma_count_matching_append(start + body, end, fo);
            lemma_count_matching_append(start, body, feo);
            lemma_count_matching_append(start + body, end, feo);
            lemma_count_single(start[0], fa);
            lemma_count_single(start[0], fea);
            lemma_count_single(start[0], fo);
            lemma_count_single(start[0], feo);
            lemma_count_single(end[0], fa);
            lemma_count_single(end[0], fea);
            lemma_count_single(end[0], fo);
            lemma_count_single(end[0], feo);
            assert(events_of(v) == start + body + end);
        },
        Val::Obj(props) => {
            let start = seq![Event::StartObj];
            let body = events_of_props(props);
            let end = seq![Event::EndObj];
            lemma_balanced_counts_props(props);
            lemma_count_matching_append(start, body, fa);
            lemma_count_matching_append(start + body, end, fa);
            lemma_count_matching_append(start, body, fea);
            lemma_count_matching_append(start + body, end, fea);
            lemma_count_matching_append(start, body, fo);
            lemma_count_matching_append(start + body, end, fo);
            lemma_count_matching_append(start, body, feo);
            lemma_count_matching_append(start + body, end, feo);
            lemma_count_single(start[0], fa);
            lemma_count_single(start[0], fea);
            lemma_count_single(start[0], fo);
            lemma_count_single(start[0], feo);
            lemma_count_single(end[0], fa);
            lemma_count_single(end[0], fea);
            lemma_count_single(end[0], fo);
            lemma_count_single(end[0], feo);
            assert(events_of(v) == start + body + end);
        },
        _ => {
            let evs = events_of(v);
            assert(evs.len() == 1);
            lemma_count_single(evs[0], fa);
            lemma_count_single(evs[0], fea);
            lemma_count_single(evs[0], fo);
            lemma_count_single(evs[0], feo);
        },
    }
}

proof fn lemma_count_single(e: Event, f: spec_fn(Event) -> bool)
    ensures
        count_matching(seq![e], f) == (if f(e) {
            1nat
        } else {
            0nat
        }),
{
    let one = seq![e];
    assert(one.subrange(1, 1) =~= Seq::<Event>::empty());
    assert(count_matching(Seq::<Event>::empty(), f) == 0);
}

pub proof fn lemma_balanced_counts_list(s: Seq<Val>)
    requires
        is_data_list(s),
    ensures
        count_matching(events_of_list(s), |e: Event| e is StartArr) == count_matching(
            events_of_list(s),
            |e: Event| e is EndArr,
        ),
        count_matching(events_of_list(s), |e: Event| e is StartObj) == count_matching(
            events_of_list(s),
            |e: Event| e is EndObj,
        ),
    decreases s,
{
    if s.len() != 0 {
        let rest = s.subrange(1, s.len() as int);
        lemma_balanced_counts(s[0]);
        lemma_balanced_counts_list(rest);
        lemma_count_matching_append(events_of(s[0]), events_of_list(rest), |e: Event| e is StartArr);
        lemma_count_matching_append(events_of(s[0]), events_of_list(rest), |e: Event| e is EndArr);
        lemma_count_matching_append(events_of(s[0]), events_of_list(rest), |e: Event| e is StartObj);
        lemma_count_matching_append(events_of(s[0]), events_of_list(rest), |e: Event| e is EndObj);
    }
}

pub proof fn lemma_balanced_counts_props(s: Seq<(Seq<u16>, Val)>)
    requires
        is_data_props(s),
    ensures
        count_matching(events_of_props(s), |e: Event| e is StartArr) == count_matching(
            events_of_props(s),
            |e: Event| e is EndArr,
        ),
        count_matching(events_of_props(s), |e: Event| e is StartObj) == count_matching(
            events_of_props(s),
            |e: Event| e is EndObj,
        ),
    decreases s,
{
    if s.len() != 0 {
        let name = seq![Event::PropName(s[0].0)];
        let rest = s.subrange(1, s.len() as int);
        assert(decreases_to!(s => s[0]));
        assert(decreases_to!(s[0] => s[0].1));
        lemma_balanced_counts(s[0].1);
        lemma_balanced_counts_props(rest);
        lemma_count_single(name[0], |e: Event| e is StartArr);
        lemma_count_single(name[0], |e: Event| e is EndArr);
        lemma_count_single(name[0], |e: Event| e is StartObj);
        lemma_count_single(name[0], |e: Event| e is EndObj);
        lemma_count_matching_append(name, events_of(s[0].1), |e: Event| e is StartArr);
        lemma_count_matching_append(name + events_of(s[0].1), events_of_props(rest), |e: Event| e is StartArr);
        lemma_count_matching_append(name, events_of(s[0].1), |e: Event| e is EndArr);
        lemma_count_matching_append(name + events_of(s[0].1), events_of_props(rest), |e: Event| e is EndArr);
        lemma_count_matching_append(name, events_of(s[0].1), |e: Event| e is StartObj);
        lemma_count_matching_append(name + events_of(s[0].1), events_of_props(rest), |e: Event| e is StartObj);
        lemma_count_matching_append(name, events_of(s[0].1), |e: Event| e is EndObj);
        lemma_count_matching_append(name + events_of(s[0].1), events_of_props(rest), |e: Event| e is EndObj);
        assert(events_of_props(s) == name + events_of(s[0].1) + events_of_props(rest));
    }
}

} // verus!
