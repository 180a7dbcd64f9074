//! Security: guards that decide which extern calls may pass, and
//! an extern map that lets only those calls through.

use crate::machine::{ContextState, VmFault, VmState};
use crate::vm::{ExecutionContext, ExternMap, VmInstance};
use vstd::prelude::*;

verus! {

/// Whether `id` is one of `ids`.
fn holds_id(ids: &Vec<usize>, id: usize) -> (found: bool)
    ensures
        found == ids@.contains(id),
{
    let mut i: usize = 0;
    while i < ids.len()
        invariant
            i <= ids@.len(),
            forall|j: int| 0 <= j < i ==> ids@[j] != id,
        decreases ids@.len() - i,
    {
        if ids[i] == id {
            return true;
        }
        i = i + 1;
    }
    false
}

/// What a program asks to be allowed to do.
#[derive(Clone, Copy, Debug, PartialEq, Eq, Structural)]
pub enum OperationRequest {
    /// To make the extern call with this id.
    ExternCall(usize),
}

/// A rule that allows or refuses requests.
pub trait Guard {
    /// Whether this guard allows the request.
    spec fn allows(&self, request: OperationRequest) -> bool;

    /// Decide whether this guard allows the request.
    fn should_allow(&self, request: &OperationRequest) -> (allowed: bool)
        ensures
            allowed == self.allows(*request),
    ;
}

/// A guard that refuses the extern call with one id, and allows all others.
pub struct ExtcGuard {
    pub id: usize,
}

impl Guard for ExtcGuard {
    open spec fn allows(&self, request: OperationRequest) -> bool {
        match request {
            OperationRequest::ExternCall(id) => id != self.id,
        }
    }

    fn should_allow(&self, request: &OperationRequest) -> (allowed: bool) {
        match request {
            OperationRequest::ExternCall(id) => *id != self.id,
        }
    }
}

/// A guard that allows the extern calls whose ids it lists, and refuses
/// all others.
pub struct InvertedExtcGuard {
    pub exceptions: Vec<usize>,
}

impl Guard for InvertedExtcGuard {
    open spec fn allows(&self, request: OperationRequest) -> bool {
        match request {
            OperationRequest::ExternCall(id) => self.exceptions@.contains(id),
        }
    }

    fn should_allow(&self, request: &OperationRequest) -> (allowed: bool) {
        match request {
            OperationRequest::ExternCall(id) => holds_id(&self.exceptions, *id),
        }
    }
}

/// An ordered list of guards. A request is allowed if every guard allows it.
pub struct SecurityManager {
    pub guards: Vec<Box<dyn Guard>>,
}

impl SecurityManager {
    /// Whether every guard allows the request.
    pub open spec fn allows(&self, request: OperationRequest) -> bool {
        forall|i: int| 0 <= i < self.guards@.len() ==> (#[trigger] self.guards@[i]).allows(request)
    }

    /// A manager without guards, which allows every request.
    pub fn new() -> (manager: SecurityManager)
        ensures
            manager.guards@.len() == 0,
    {
        SecurityManager { guards: Vec::new() }
    }

    /// Add a guard behind those that are there.
    pub fn add_guard(&mut self, guard: Box<dyn Guard>)
        ensures
            final(self).guards@ == old(self).guards@.push(guard),
    {
        self.guards.push(guard);
    }

    /// Decide whether every guard allows the request.
    pub fn is_allowed(&self, request: &OperationRequest) -> (allowed: bool)
        ensures
            allowed == self.allows(*request),
    {
        let mut i: usize = 0;
        while i < self.guards.len()
            invariant
                i <= self.guards@.len(),
                forall|j: int| 0 <= j < i ==> (#[trigger] self.guards@[j]).allows(*request),
            decreases self.guards@.len() - i,
        {
            if !self.guards[i].should_allow(request) {
                return false;
            }
            i = i + 1;
        }
        true
    }
}

/// What a guarded extern map does with a call that it does not let through.
#[derive(Clone, Copy, Debug, PartialEq, Eq, Structural)]
pub enum IllegalOperationHandleMethod {
    /// The call is a fault, which ends the run.
    Panic,
    /// The call does nothing, and the run goes on.
    SilentFail,
}

/// An extern map that checks every call against a list of call ids before
/// it hands the call to the extern map inside.
///
/// A call is let through if its id is not on the list. Where the map is
/// inverted, a call is let through if its id is on the list.
pub struct GuardedExternMap<M: ExternMap> {
    inner: M,
    guards: Vec<usize>,
    inverted: bool,
    handle_method: IllegalOperationHandleMethod,
}

impl<M: ExternMap> GuardedExternMap<M> {
    /// The extern map that serves the calls that are let through.
    pub closed spec fn inner(&self) -> M {
        self.inner
    }

    /// The call ids on the list.
    pub closed spec fn guards(&self) -> Seq<usize> {
        self.guards@
    }

    /// Whether the list names the calls to let through, not those to stop.
    pub closed spec fn inverted(&self) -> bool {
        self.inverted
    }

    /// What is done with a call that is not let through.
    pub closed spec fn handle_method(&self) -> IllegalOperationHandleMethod {
        self.handle_method
    }

    /// Whether the call with this id is let through.
    pub open spec fn forwards(&self, call_id: usize) -> bool {
        !self.guards().contains(call_id) != self.inverted()
    }

    /// Whether `other` differs from this map in the map inside at most.
    pub open spec fn same_list(&self, other: &Self) -> bool {
        &&& other.guards() == self.guards()
        &&& other.inverted() == self.inverted()
        &&& other.handle_method() == self.handle_method()
    }

    /// Put a call id on the list.
    pub fn add_guard(&mut self, guard: usize)
        ensures
            final(self).guards() == old(self).guards().push(guard),
            final(self).inner() == old(self).inner(),
            final(self).inverted() == old(self).inverted(),
            final(self).handle_method() == old(self).handle_method(),
    {
        self.guards.push(guard);
    }

    /// Guard `inner` with the given list.
    pub fn new(
        inner: M,
        guards: Vec<usize>,
        inverted: bool,
        handle_method: IllegalOperationHandleMethod,
    ) -> (map: GuardedExternMap<M>)
        ensures
            map.inner() == inner,
            map.guards() == guards@,
            map.inverted() == inverted,
            map.handle_method() == handle_method,
    {
        GuardedExternMap { inner, guards, inverted, handle_method }
    }

    /// Guard `inner` with an empty list.
    pub fn empty(inner: M, inverted: bool, handle_method: IllegalOperationHandleMethod) -> (map:
        GuardedExternMap<M>)
        ensures
            map.inner() == inner,
            map.guards() == Seq::<usize>::empty(),
            map.inverted() == inverted,
            map.handle_method() == handle_method,
    {
        GuardedExternMap::new(inner, Vec::new(), inverted, handle_method)
    }
}

impl<M: ExternMap> ExternMap for GuardedExternMap<M> {
    open spec fn serves(
        &self,
        ctx: ContextState,
        vm: VmState,
        call_id: usize,
        served: &Self,
        ctx_after: ContextState,
        vm_after: VmState,
        result: Result<(), VmFault>,
    ) -> bool {
        if self.forwards(call_id) {
            &&& self.same_list(served)
            &&& self.inner().serves(ctx, vm, call_id, &served.inner(), ctx_after, vm_after, result)
        } else {
            &&& served == self
            &&& ctx_after == ctx
            &&& vm_after == vm
            &&& result == match self.handle_method() {
                IllegalOperationHandleMethod::Panic => Err::<(), VmFault>(
                    VmFault::IllegalExternCall { call_id, execution_index: vm.index },
                ),
                IllegalOperationHandleMethod::SilentFail => Ok::<(), VmFault>(()),
            }
        }
    }

    fn handle(
        &mut self,
        ctx: &mut ExecutionContext,
        call_id: usize,
        vm: &mut VmInstance,
    ) -> (result: Result<(), VmFault>) {
        if !holds_id(&self.guards, call_id) ^ self.inverted {
            return self.inner.handle(ctx, call_id, vm);
        }
        match self.handle_method {
            IllegalOperationHandleMethod::Panic => Err(
                VmFault::IllegalExternCall { call_id, execution_index: vm.execution_index },
            ),
            IllegalOperationHandleMethod::SilentFail => Ok(()),
        }
    }
}

} // verus!
