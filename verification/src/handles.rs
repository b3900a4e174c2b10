//! Isolates, handle scopes and value handles: the resource discipline of
//! the bridge. An isolate owns a stack of handle scopes; every value a
//! scope produces is reachable only through a handle naming that isolate,
//! that scope and a slot. A handle from another isolate is refused, and a
//! handle whose scope has exited can never be read again: scope
//! identifiers grow monotonically and are never reused.

use vstd::prelude::*;
use crate::value::{JsValue, Val};
use crate::surface::copy_value;
use crate::emit::{emit, is_data, events_of, wf_val, EmitError};
use crate::writer::Writer;

verus! {

/// A transient reference to an engine-resident value.
#[derive(Clone, Copy, PartialEq, Eq, Structural, Debug)]
pub struct ValueHandle {
    pub isolate: u64,
    pub scope: u64,
    pub index: usize,
}

/// One live handle scope: its identifier and the values it owns.
pub struct ScopeArena {
    pub id: u64,
    pub slots: Vec<JsValue>,
}

/// An isolated execution environment: the unit of resource ownership.
/// `scopes` is the stack of live handle scopes, innermost last.
pub struct Isolate {
    pub id: u64,
    pub scopes: Vec<ScopeArena>,
    pub next_scope: u64,
}

/// Why a handle could not be read.
#[derive(Clone, Copy, PartialEq, Eq, Structural, Debug)]
pub enum HandleError {
    /// The handle names another isolate.
    CrossIsolate,
    /// The handle's producing scope is no longer live.
    StaleScope,
    /// The handle's slot does not exist in its scope.
    BadIndex,
    /// The isolate has no live scope to put a value in.
    NoScope,
}

impl Isolate {
    /// Scope identifiers are pairwise distinct and below the next one to
    /// be handed out — so an exited identifier can never recur — and every
    /// stored value is within the engine's size limits, so any of them can
    /// be handed to the traversal.
    pub open spec fn wf(self) -> bool {
        &&& forall|i: int, j: int|
            0 <= i < j < self.scopes@.len() ==> (#[trigger] self.scopes@[i]).id != (
            #[trigger] self.scopes@[j]).id
        &&& forall|i: int|
            0 <= i < self.scopes@.len() ==> (#[trigger] self.scopes@[i]).id < self.next_scope
        &&& forall|i: int, j: int|
            0 <= i < self.scopes@.len() && 0 <= j < self.scopes@[i].slots@.len() ==> wf_val(
                (#[trigger] self.scopes@[i].slots@[j])@,
            )
    }

    /// The value a live handle names. Scope identifiers are distinct under
    /// `wf`, so the choice below is determined.
    pub open spec fn handle_val(self, h: ValueHandle) -> Val {
        let i = choose|i: int|
            0 <= i < self.scopes@.len() && (#[trigger] self.scopes@[i]).id == h.scope;
        self.scopes@[i].slots@[h.index as int]@
    }

    /// A scope with this identifier is live.
    pub open spec fn has_scope(self, sid: u64) -> bool {
        exists|i: int| 0 <= i < self.scopes@.len() && (#[trigger] self.scopes@[i]).id == sid
    }

    /// The handle names this isolate, a live scope, and a slot the scope
    /// holds.
    pub open spec fn handle_live(self, h: ValueHandle) -> bool {
        h.isolate == self.id && exists|i: int|
            0 <= i < self.scopes@.len() && (#[trigger] self.scopes@[i]).id == h.scope && h.index
                < self.scopes@[i].slots@.len()
    }

    /// A scope identifier that was used and retired: no operation ever
    /// revives it.
    pub open spec fn scope_dead(self, sid: u64) -> bool {
        !self.has_scope(sid) && sid < self.next_scope
    }

    /// The host picks the identifier, as it owns engine isolates by
    /// address: the cross-isolate guarantee holds between isolates whose
    /// identifiers differ.
    pub fn new(id: u64) -> (r: Isolate)
        ensures
            r.wf(),
            r.id == id,
            r.scopes@.len() == 0,
            r.next_scope == 0,
    {
        Isolate { id, scopes: Vec::new(), next_scope: 0 }
    }

    /// Opens a nested handle scope; values made from now on belong to it
    /// until it exits.
    pub fn enter_scope(&mut self)
        requires
            old(self).wf(),
            old(self).next_scope < u64::MAX,
        ensures
            final(self).wf(),
            final(self).id == old(self).id,
            final(self).next_scope == old(self).next_scope + 1,
            final(self).scopes@.len() == old(self).scopes@.len() + 1,
            final(self).scopes@.last().id == old(self).next_scope,
            final(self).scopes@.last().slots@.len() == 0,
            forall|i: int|
                0 <= i < old(self).scopes@.len() ==> final(self).scopes@[i] == old(
                    self,
                ).scopes@[i],
    {
        let fresh = ScopeArena { id: self.next_scope, slots: Vec::new() };
        self.scopes.push(fresh);
        self.next_scope = self.next_scope + 1;
    }

    /// Exits the innermost scope: every value it owned is gone, and every
    /// handle into it is dead for good.
    pub fn exit_scope(&mut self)
        requires
            old(self).wf(),
            old(self).scopes@.len() > 0,
        ensures
            final(self).wf(),
            final(self).id == old(self).id,
            final(self).next_scope == old(self).next_scope,
            final(self).scopes@ == old(self).scopes@.drop_last(),
    {
        let _ = self.scopes.pop();
        proof {
            assert(self.scopes@ =~= old(self).scopes@.drop_last());
        }
    }

    /// Puts a value into the innermost scope and hands back its handle.
    pub fn store(&mut self, value: JsValue) -> (h: ValueHandle)
        requires
            old(self).wf(),
            old(self).scopes@.len() > 0,
            old(self).scopes@.last().slots@.len() < usize::MAX,
            wf_val(value@),
        ensures
            final(self).wf(),
            final(self).id == old(self).id,
            final(self).next_scope == old(self).next_scope,
            final(self).scopes@.len() == old(self).scopes@.len(),
            forall|i: int|
                0 <= i < old(self).scopes@.len() - 1 ==> final(self).scopes@[i] == old(
                    self,
                ).scopes@[i],
            final(self).scopes@.last().id == old(self).scopes@.last().id,
            final(self).scopes@.last().slots@ == old(self).scopes@.last().slots@.push(value),
            h.isolate == old(self).id,
            h.scope == old(self).scopes@.last().id,
            h.index == old(self).scopes@.last().slots@.len(),
            final(self).handle_live(h),
            final(self).scopes@.last().slots@[h.index as int] == value,
    {
        let top: usize = self.scopes.len() - 1;
        let mut arena = match self.scopes.pop() {
            Some(a) => a,
            None => ScopeArena { id: 0, slots: Vec::new() },
        };
        let h = ValueHandle { isolate: self.id, scope: arena.id, index: arena.slots.len() };
        arena.slots.push(value);
        self.scopes.push(arena);
        proof {
            assert(self.scopes@ =~= old(self).scopes@.update(top as int, self.scopes@.last()));
            assert(self.scopes@[top as int].id == h.scope);
            assert(h.index < self.scopes@[top as int].slots@.len());
        }
        h
    }

    /// Reads the value a handle names, copied out. A handle from another
    /// isolate, from an exited scope, or naming a missing slot reads as
    /// the matching error — never as stale data.
    pub fn read(&self, h: &ValueHandle) -> (r: Result<JsValue, HandleError>)
        requires
            self.wf(),
        ensures
            r is Ok <==> self.handle_live(*h),
            match r {
                Ok(value) => exists|i: int|
                    0 <= i < self.scopes@.len() && (#[trigger] self.scopes@[i]).id == h.scope
                        && h.index < self.scopes@[i].slots@.len() && value@
                        == self.scopes@[i].slots@[h.index as int]@,
                Err(e) => match e {
                    HandleError::CrossIsolate => h.isolate != self.id,
                    HandleError::StaleScope => h.isolate == self.id && !self.has_scope(h.scope),
                    HandleError::BadIndex => h.isolate == self.id && self.has_scope(h.scope)
                        && !self.handle_live(*h),
                    HandleError::NoScope => false,
                },
            },
    {
        if h.isolate != self.id {
            return Err(HandleError::CrossIsolate);
        }
        let mut i: usize = 0;
        while i < self.scopes.len()
            invariant
                self.wf(),
                i <= self.scopes@.len(),
                h.isolate == self.id,
                forall|j: int| 0 <= j < i ==> (#[trigger] self.scopes@[j]).id != h.scope,
            decreases self.scopes@.len() - i,
        {
            if self.scopes[i].id == h.scope {
                if h.index < self.scopes[i].slots.len() {
                    let value = copy_value(&self.scopes[i].slots[h.index]);
                    return Ok(value);
                } else {
                    proof {
                        assert forall|j: int|
                            0 <= j < self.scopes@.len() && (#[trigger] self.scopes@[j]).id
                                == h.scope implies j == i as int by {}
                    }
                    return Err(HandleError::BadIndex);
                }
            }
            i = i + 1;
        }
        Err(HandleError::StaleScope)
    }

    /// Classifies the value a handle names, validating the handle first.
    pub fn kind_of_handle(&self, h: &ValueHandle) -> (r: Result<
        crate::value::JsValueType,
        HandleError,
    >)
        requires
            self.wf(),
        ensures
            r is Ok <==> self.handle_live(*h),
            match r {
                Ok(kind) => exists|i: int|
                    0 <= i < self.scopes@.len() && (#[trigger] self.scopes@[i]).id == h.scope
                        && h.index < self.scopes@[i].slots@.len() && kind
                        == crate::value::kind_of_val(self.scopes@[i].slots@[h.index as int]@),
                Err(e) => match e {
                    HandleError::CrossIsolate => h.isolate != self.id,
                    HandleError::StaleScope => h.isolate == self.id && !self.has_scope(h.scope),
                    HandleError::BadIndex => h.isolate == self.id && self.has_scope(h.scope)
                        && !self.handle_live(*h),
                    HandleError::NoScope => false,
                },
            },
    {
        match self.read(h) {
            Ok(value) => Ok(crate::value::kind_of(&value)),
            Err(e) => Err(e),
        }
    }

    /// Streams the value a handle names into a writer: the bridge entry
    /// point over handles. The handle is validated first — nothing is
    /// written for a dead handle — and a live data value appends exactly
    /// its event sequence to the writer's log.
    pub fn emit_handle<W: Writer>(&self, h: &ValueHandle, w: &mut W) -> (r: Result<
        (),
        BridgeError,
    >)
        requires
            self.wf(),
        ensures
            match r {
                Ok(()) => self.handle_live(*h) && is_data(self.handle_val(*h)) && final(w).log()
                    == old(w).log() + events_of(self.handle_val(*h)),
                Err(BridgeError::Handle(e)) => !self.handle_live(*h) && final(w).log() == old(
                    w,
                ).log() && (match e {
                    HandleError::CrossIsolate => h.isolate != self.id,
                    HandleError::StaleScope => h.isolate == self.id && !self.has_scope(h.scope),
                    HandleError::BadIndex => h.isolate == self.id && self.has_scope(h.scope),
                    HandleError::NoScope => false,
                }),
                Err(BridgeError::Emit(e)) => self.handle_live(*h) && !is_data(
                    self.handle_val(*h),
                ) && e == EmitError::UnsupportedKind && final(w).log() == old(w).log(),
            },
    {
        match self.read(h) {
            Err(e) => Err(BridgeError::Handle(e)),
            Ok(value) => {
                proof {
                    let i = choose|i: int|
                        0 <= i < self.scopes@.len() && (#[trigger] self.scopes@[i]).id == h.scope
                            && h.index < self.scopes@[i].slots@.len() && value@
                            == self.scopes@[i].slots@[h.index as int]@;
                    let c = choose|i: int|
                        0 <= i < self.scopes@.len() && (#[trigger] self.scopes@[i]).id == h.scope;
                    assert(self.scopes@[i].id == self.scopes@[c].id);
                    assert(i == c);
                    assert(value@ == self.handle_val(*h));
                    assert(wf_val(value@));
                }
                match emit(&value, w) {
                    Ok(()) => Ok(()),
                    Err(e) => Err(BridgeError::Emit(e)),
                }
            },
        }
    }
}

/// What stopped a handle from being streamed: the handle itself, or the
/// kind of the value it names.
#[derive(Clone, Copy, PartialEq, Eq, Structural, Debug)]
pub enum BridgeError {
    Handle(HandleError),
    Emit(EmitError),
}

/// Isolate independence: a handle live in one isolate is not live in any
/// isolate with another identifier, and reading it there reports the
/// cross-isolate error rather than a value.
pub proof fn lemma_isolate_independence(a: Isolate, b: Isolate, h: ValueHandle)
    requires
        a.id != b.id,
        a.handle_live(h),
    ensures
        !b.handle_live(h),
{
}

/// Scope lifetime: exiting a scope kills every handle into it — the
/// identifier leaves the live stack, so a read reports the stale-scope
/// error — and the identifier is retired for good.
pub proof fn lemma_scope_exit_invalidates(pre: Isolate, post: Isolate, h: ValueHandle)
    requires
        pre.wf(),
        pre.scopes@.len() > 0,
        h.scope == pre.scopes@.last().id,
        post.id == pre.id,
        post.next_scope == pre.next_scope,
        post.scopes@ == pre.scopes@.drop_last(),
    ensures
        !post.has_scope(h.scope),
        !post.handle_live(h),
        post.scope_dead(h.scope),
{
    let n = pre.scopes@.len() as int;
    assert forall|i: int| 0 <= i < post.scopes@.len() implies (#[trigger] post.scopes@[i]).id
        != h.scope by {
        assert(post.scopes@[i] == pre.scopes@[i]);
        assert(pre.scopes@[i].id != pre.scopes@[n - 1].id);
    }
    assert(pre.scopes@[n - 1].id < pre.next_scope);
}

/// A retired scope identifier stays retired when a new scope opens: fresh
/// identifiers are taken above every identifier ever used.
pub proof fn lemma_dead_scope_stays_dead_enter(pre: Isolate, post: Isolate, sid: u64)
    requires
        pre.wf(),
        pre.scope_dead(sid),
        post.next_scope == pre.next_scope + 1,
        post.scopes@.len() == pre.scopes@.len() + 1,
        post.scopes@.last().id == pre.next_scope,
        forall|i: int| 0 <= i < pre.scopes@.len() ==> post.scopes@[i] == pre.scopes@[i],
    ensures
        post.scope_dead(sid),
{
    assert forall|i: int| 0 <= i < post.scopes@.len() implies (#[trigger] post.scopes@[i]).id
        != sid by {
        if i < pre.scopes@.len() {
            assert(post.scopes@[i] == pre.scopes@[i]);
            assert(!pre.has_scope(sid));
        }
    }
}

/// A retired scope identifier stays retired when a value is put into the
/// innermost scope: allocation never changes which scopes are live.
pub proof fn lemma_dead_scope_stays_dead_alloc(pre: Isolate, post: Isolate, sid: u64)
    requires
        pre.wf(),
        pre.scopes@.len() > 0,
        pre.scope_dead(sid),
        post.next_scope == pre.next_scope,
        post.scopes@.len() == pre.scopes@.len(),
        post.scopes@.last().id == pre.scopes@.last().id,
        forall|i: int| 0 <= i < pre.scopes@.len() - 1 ==> post.scopes@[i] == pre.scopes@[i],
    ensures
        post.scope_dead(sid),
{
    assert forall|i: int| 0 <= i < post.scopes@.len() implies (#[trigger] post.scopes@[i]).id
        != sid by {
        assert(!pre.has_scope(sid));
        if i < pre.scopes@.len() - 1 {
            assert(post.scopes@[i] == pre.scopes@[i]);
            assert(pre.scopes@[i].id != sid);
        } else {
            assert(pre.scopes@[i].id != sid);
        }
    }
}

/// A retired scope identifier stays retired when another scope exits.
pub proof fn lemma_dead_scope_stays_dead_exit(pre: Isolate, post: Isolate, sid: u64)
    requires
        pre.wf(),
        pre.scopes@.len() > 0,
        pre.scope_dead(sid),
        post.next_scope == pre.next_scope,
        post.scopes@ == pre.scopes@.drop_last(),
    ensures
        post.scope_dead(sid),
{
    assert forall|i: int| 0 <= i < post.scopes@.len() implies (#[trigger] post.scopes@[i]).id
        != sid by {
        assert(post.scopes@[i] == pre.scopes@[i]);
        assert(!pre.has_scope(sid));
        assert(pre.scopes@[i].id != sid);
    }
}

} // verus!
