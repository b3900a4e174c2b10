//! The writer protocol: the host-implemented visitor the bridge streams a
//! value graph into, one call per value shape, so the host can build its own
//! representation without the bridge allocating it.

use vstd::prelude::*;

verus! {

/// One writer call, as the contracts speak of it.
pub enum Event {
    Undefined,
    Null,
    True,
    False,
    Int(i64),
    Num(u64),
    Text(Seq<u16>),
    StartArr(u32),
    EndArr,
    StartObj,
    PropName(Seq<u16>),
    EndObj,
}

/// One recorded writer call, as a host that keeps a log holds it.
#[derive(Debug, Clone, PartialEq, Eq)]
pub enum WriteEvent {
    Undefined,
    Null,
    True,
    False,
    Int(i64),
    Num(u64),
    Text(Vec<u16>),
    StartArr(u32),
    EndArr,
    StartObj,
    PropName(Vec<u16>),
    EndObj,
}

pub open spec fn event_of(e: WriteEvent) -> Event {
    match e {
        WriteEvent::Undefined => Event::Undefined,
        WriteEvent::Null => Event::Null,
        WriteEvent::True => Event::True,
        WriteEvent::False => Event::False,
        WriteEvent::Int(n) => Event::Int(n),
        WriteEvent::Num(bits) => Event::Num(bits),
        WriteEvent::Text(s) => Event::Text(s@),
        WriteEvent::StartArr(n) => Event::StartArr(n),
        WriteEvent::EndArr => Event::EndArr,
        WriteEvent::StartObj => Event::StartObj,
        WriteEvent::PropName(s) => Event::PropName(s@),
        WriteEvent::EndObj => Event::EndObj,
    }
}

impl View for WriteEvent {
    type V = Event;

    open spec fn view(&self) -> Event {
        event_of(*self)
    }
}

/// The host's side of the bridge: a fixed set of callbacks the traversal
/// invokes. `log` is the abstract record of the calls made so far; every
/// call appends exactly one event to it. String payloads arrive as borrowed
/// UTF-16 code units with an explicit length and no terminator; the host
/// copies them out if it keeps them.
pub trait Writer {
    spec fn log(&self) -> Seq<Event>;

    fn write_undefined(&mut self)
        ensures
            final(self).log() == old(self).log().push(Event::Undefined),
    ;

    fn write_null(&mut self)
        ensures
            final(self).log() == old(self).log().push(Event::Null),
    ;

    fn write_true(&mut self)
        ensures
            final(self).log() == old(self).log().push(Event::True),
    ;

    fn write_false(&mut self)
        ensures
            final(self).log() == old(self).log().push(Event::False),
    ;

    fn write_int(&mut self, n: i64)
        ensures
            final(self).log() == old(self).log().push(Event::Int(n)),
    ;

    /// A general number, handed over as its 64-bit floating-point pattern.
    fn write_number_bits(&mut self, bits: u64)
        ensures
            final(self).log() == old(self).log().push(Event::Num(bits)),
    ;

    fn write_string(&mut self, chars: &Vec<u16>)
        ensures
            final(self).log() == old(self).log().push(Event::Text(chars@)),
    ;

    fn write_start_array(&mut self, len: u32)
        ensures
            final(self).log() == old(self).log().push(Event::StartArr(len)),
    ;

    fn write_end_array(&mut self)
        ensures
            final(self).log() == old(self).log().push(Event::EndArr),
    ;

    fn write_start_object(&mut self)
        ensures
            final(self).log() == old(self).log().push(Event::StartObj),
    ;

    fn write_property_name(&mut self, chars: &Vec<u16>)
        ensures
            final(self).log() == old(self).log().push(Event::PropName(chars@)),
    ;

    fn write_end_object(&mut self)
        ensures
            final(self).log() == old(self).log().push(Event::EndObj),
    ;
}

/// A writer that keeps the calls it receives, in order: the reference
/// destination for tests and for hosts that want the event stream itself.
pub struct RecordingWriter {
    pub events: Vec<WriteEvent>,
}

impl RecordingWriter {
    pub fn new() -> (r: RecordingWriter)
        ensures
            r.log() == Seq::<Event>::empty(),
    {
        let r = RecordingWriter { events: Vec::new() };
        proof {
            assert(r.log() =~= Seq::<Event>::empty());
        }
        r
    }
}

impl Writer for RecordingWriter {
    open spec fn log(&self) -> Seq<Event> {
        self.events@.map(|i: int, e: WriteEvent| event_of(e))
    }

    fn write_undefined(&mut self) {
        self.events.push(WriteEvent::Undefined);
        proof {
            assert(self.log() =~= old(self).log().push(Event::Undefined));
        }
    }

    fn write_null(&mut self) {
        self.events.push(WriteEvent::Null);
        proof {
            assert(self.log() =~= old(self).log().push(Event::Null));
        }
    }

    fn write_true(&mut self) {
        self.events.push(WriteEvent::True);
        proof {
            assert(self.log() =~= old(self).log().push(Event::True));
        }
    }

    fn write_false(&mut self) {
        self.events.push(WriteEvent::False);
        proof {
            assert(self.log() =~= old(self).log().push(Event::False));
        }
    }

    fn write_int(&mut self, n: i64) {
        self.events.push(WriteEvent::Int(n));
        proof {
            assert(self.log() =~= old(self).log().push(Event::Int(n)));
        }
    }

    fn write_number_bits(&mut self, bits: u64) {
        self.events.push(WriteEvent::Num(bits));
        proof {
            assert(self.log() =~= old(self).log().push(Event::Num(bits)));
        }
    }

    fn write_string(&mut self, chars: &Vec<u16>) {
        let copy = copy_code_units(chars);
        self.events.push(WriteEvent::Text(copy));
        proof {
            assert(self.log() =~= old(self).log().push(Event::Text(chars@)));
        }
    }

    fn write_start_array(&mut self, len: u32) {
        self.events.push(WriteEvent::StartArr(len));
        proof {
            assert(self.log() =~= old(self).log().push(Event::StartArr(len)));
        }
    }

    fn write_end_array(&mut self) {
        self.events.push(WriteEvent::EndArr);
        proof {
            assert(self.log() =~= old(self).log().push(Event::EndArr));
        }
    }

    fn write_start_object(&mut self) {
        self.events.push(WriteEvent::StartObj);
        proof {
            assert(self.log() =~= old(self).log().push(Event::StartObj));
        }
    }

    fn write_property_name(&mut self, chars: &Vec<u16>) {
        let copy = copy_code_units(chars);
        self.events.push(WriteEvent::PropName(copy));
        proof {
            assert(self.log() =~= old(self).log().push(Event::PropName(chars@)));
        }
    }

    fn write_end_object(&mut self) {
        self.events.push(WriteEvent::EndObj);
        proof {
            assert(self.log() =~= old(self).log().push(Event::EndObj));
        }
    }
}

/// Copies a borrowed UTF-16 payload into an owned buffer of the same
/// content: what a retaining host does with the bytes handed to it.
pub fn copy_code_units(chars: &Vec<u16>) -> (r: Vec<u16>)
    ensures
        r@ == chars@,
{
    let mut r: Vec<u16> = Vec::new();
    let mut i: usize = 0;
    while i < chars.len()
        invariant
            i <= chars@.len(),
            r@ == chars@.subrange(0, i as int),
        decreases chars@.len() - i,
    {
        r.push(chars[i]);
        i = i + 1;
        proof {
            assert(r@ =~= chars@.subrange(0, i as int));
        }
    }
    proof {
        assert(r@ =~= chars@);
    }
    r
}

} // verus!
