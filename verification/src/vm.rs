//! The virtual machine: its memory pool, its two stacks, and the loop that
//! fetches, decodes and executes instructions.

use crate::byte_id;
use crate::machine::{
    lemma_run_uses_budget, overwrite, read_at, run_of, step_of, ContextState, Status, VmFault,
    VmState,
};
use crate::options::{MemoryPointerLength, ProgramOptions};
use vstd::prelude::*;
use vstd::slice::{slice_subrange, slice_to_vec};

verus! {

/// The table of external functions that a program can call.
///
/// The machine hands every `I_EXTERN_CALL` to `handle`, together with the
/// execution context and the whole machine: the handler may change the
/// memory pool, both stacks, the execution index and the context. An error
/// ends the run.
pub trait ExternMap: Sized {
    /// Whether serving the call `call_id` may turn this map, `ctx` and `vm`
    /// into `served`, `ctx_after` and `vm_after`, and end with `result`. A
    /// map that says nothing of itself may do anything.
    open spec fn serves(
        &self,
        ctx: ContextState,
        vm: VmState,
        call_id: usize,
        served: &Self,
        ctx_after: ContextState,
        vm_after: VmState,
        result: Result<(), VmFault>,
    ) -> bool {
        true
    }

    /// Serve the extern call `call_id`.
    fn handle(
        &mut self,
        ctx: &mut ExecutionContext,
        call_id: usize,
        vm: &mut VmInstance,
    ) -> (result: Result<(), VmFault>)
        ensures
            old(self).serves(
                old(ctx)@,
                old(vm)@,
                call_id,
                final(self),
                final(ctx)@,
                final(vm)@,
                result,
            ),
    ;
}

/// An extern map that serves no call: every call is a fault.
pub struct EmptyExternMap;

impl ExternMap for EmptyExternMap {
    open spec fn serves(
        &self,
        ctx: ContextState,
        vm: VmState,
        call_id: usize,
        served: &Self,
        ctx_after: ContextState,
        vm_after: VmState,
        result: Result<(), VmFault>,
    ) -> bool {
        &&& ctx_after == ctx
        &&& vm_after == vm
        &&& result == Err::<(), VmFault>(VmFault::EmptyExternMap { call_id })
    }

    fn handle(
        &mut self,
        _ctx: &mut ExecutionContext,
        call_id: usize,
        _vm: &mut VmInstance,
    ) -> (result: Result<(), VmFault>) {
        Err(VmFault::EmptyExternMap { call_id })
    }
}

/// The scratch state of one run.
pub struct ExecutionContext {
    /// The bytes that the last `I_LOAD_A` loaded; empty before the first.
    pub ext_a: Vec<u8>,
    /// Whether the last output operation succeeded.
    pub ext_1: bool,
}

impl View for ExecutionContext {
    type V = ContextState;

    open spec fn view(&self) -> ContextState {
        ContextState { ext_a: self.ext_a@, ext_1: self.ext_1 }
    }
}

impl ExecutionContext {
    /// The bytes loaded in `ext_a`, which must not be empty.
    pub fn ext_a_slice(&self) -> (bytes: &[u8])
        requires
            self.ext_a@.len() > 0,
        ensures
            bytes@ == self.ext_a@,
    {
        self.ext_a.as_slice()
    }

    /// A context with nothing loaded and no failed output.
    pub fn new() -> (ctx: ExecutionContext)
        ensures
            ctx@ == (ContextState { ext_a: Seq::empty(), ext_1: true }),
    {
        ExecutionContext { ext_a: Vec::new(), ext_1: true }
    }
}

/// An extern map and the execution context of one run.
pub struct ExecutionEnvironment<M: ExternMap> {
    pub extern_map: M,
    pub ctx: ExecutionContext,
}

impl<M: ExternMap> ExecutionEnvironment<M> {
    /// Hand the extern call `call_id` to the extern map.
    pub fn call_extern(&mut self, call_id: usize, vm: &mut VmInstance) -> (result: Result<
        (),
        VmFault,
    >)
        ensures
            old(self).extern_map.serves(
                old(self).ctx@,
                old(vm)@,
                call_id,
                &final(self).extern_map,
                final(self).ctx@,
                final(vm)@,
                result,
            ),
    {
        self.extern_map.handle(&mut self.ctx, call_id, vm)
    }

    /// Create a new ExecutionEnvironment with a fresh context.
    pub fn new(extern_map: M) -> (env: ExecutionEnvironment<M>)
        ensures
            env.extern_map == extern_map,
            env.ctx@ == (ContextState { ext_a: Seq::empty(), ext_1: true }),
    {
        ExecutionEnvironment { extern_map, ctx: ExecutionContext::new() }
    }
}

/// Whether a run of at most `budget` instructions that starts with `map`,
/// `ctx` and `vm` may leave `map_end`, `ctx_end` and `vm_end` behind and
/// return `result`.
///
/// The machine runs by itself up to the first extern call. What the call
/// does is for the extern map to say; the run ends with the fault of a call
/// that failed, and goes on with the steps that are left after one that
/// succeeded.
pub open spec fn run_may_end<M: ExternMap>(
    map: M,
    ctx: ContextState,
    vm: VmState,
    budget: nat,
    map_end: M,
    ctx_end: ContextState,
    vm_end: VmState,
    result: Result<Status, VmFault>,
) -> bool
    decreases budget,
    via run_may_end_decreases::<M>
{
    let ran = run_of(vm, ctx, budget);
    match ran.result {
        Ok(Status::Calling(call_id)) => exists|
            served: M,
            ctx_served: ContextState,
            vm_served: VmState,
            outcome: Result<(), VmFault>,
        |
            {
                &&& #[trigger] map.serves(
                    ran.ctx,
                    ran.vm,
                    call_id,
                    &served,
                    ctx_served,
                    vm_served,
                    outcome,
                )
                &&& match outcome {
                    Ok(_) => run_may_end(
                        served,
                        ctx_served,
                        vm_served,
                        ran.left,
                        map_end,
                        ctx_end,
                        vm_end,
                        result,
                    ),
                    Err(fault) => {
                        &&& map_end == served
                        &&& ctx_end == ctx_served
                        &&& vm_end == vm_served
                        &&& result == Err::<Status, VmFault>(fault)
                    },
                }
            },
        _ => {
            &&& map_end == map
            &&& ctx_end == ran.ctx
            &&& vm_end == ran.vm
            &&& result == ran.result
        },
    }
}

#[via_fn]
proof fn run_may_end_decreases<M: ExternMap>(
    map: M,
    ctx: ContextState,
    vm: VmState,
    budget: nat,
    map_end: M,
    ctx_end: ContextState,
    vm_end: VmState,
    result: Result<Status, VmFault>,
) {
    lemma_run_uses_budget(vm, ctx, budget);
}

/// The stack of values: each entry holds its own bytes.
pub type Stack = Vec<Vec<u8>>;

/// An instance of the ivm virtual machine.
pub struct VmInstance {
    pub options: ProgramOptions,
    pub mem_pool: Vec<u8>,
    pub execution_index: usize,
    pub stack: Stack,
    pub call_stack: Vec<usize>,
}

/// The bytes of each entry of a stack, bottom first.
pub open spec fn entries_of(stack: Seq<Vec<u8>>) -> Seq<Seq<u8>> {
    stack.map_values(|entry: Vec<u8>| entry@)
}

impl View for VmInstance {
    type V = VmState;

    open spec fn view(&self) -> VmState {
        VmState {
            options: self.options,
            pool: self.mem_pool@,
            index: self.execution_index,
            stack: entries_of(self.stack@),
            calls: self.call_stack@,
        }
    }
}

/// Copy `len` bytes of the pool, starting at `from`.
fn copy_range(pool: &Vec<u8>, from: usize, len: usize) -> (bytes: Vec<u8>)
    requires
        from + len <= pool@.len(),
    ensures
        bytes@ == pool@.subrange(from as int, from + len),
{
    let _ = pool.len();
    slice_to_vec(slice_subrange(pool.as_slice(), from, from + len))
}

/// Write `data` over the bytes of the pool that start at `dest`.
pub(crate) fn overwrite_range(pool: &mut Vec<u8>, dest: usize, data: &[u8])
    requires
        dest + data@.len() <= old(pool)@.len(),
    ensures
        final(pool)@ == overwrite(old(pool)@, dest as int, data@),
{
    let len = pool.len();
    let mut i: usize = 0;
    while i < data.len()
        invariant
            i <= data@.len(),
            pool@.len() == old(pool)@.len() == len,
            dest + data@.len() <= pool@.len(),
            pool@ == overwrite(old(pool)@, dest as int, data@.take(i as int)),
        decreases data@.len() - i,
    {
        pool.set(dest + i, data[i]);
        assert(pool@ =~= overwrite(old(pool)@, dest as int, data@.take(i + 1)));
        i = i + 1;
    }
    assert(data@.take(i as int) =~= data@);
}

impl VmInstance {
    /// The memory pool of a machine has a length that is a `usize`.
    pub proof fn lemma_fits_memory(&self)
        ensures
            self@.fits_memory(),
    {
        assert(self.mem_pool.len() == self.mem_pool@.len());
    }

    /// Introduce new bytes at the end of the memory pool.
    pub fn introduce(&mut self, bytes: Vec<u8>)
        ensures
            final(self)@ == (VmState { pool: old(self)@.pool + bytes@, ..old(self)@ }),
    {
        let mut bytes = bytes;
        self.mem_pool.append(&mut bytes);
    }

    /// Resolve the read operation at `index`: the bytes it stands for, and
    /// how many bytes of bytecode it takes up.
    pub fn handle_read_op(&self, index: usize) -> (read: Result<(Vec<u8>, usize), VmFault>)
        ensures
            match read_at(self@.pool, index as int, *self.options.ptr_len()) {
                Ok((data, skip)) => read is Ok && read->Ok_0.0@ == data && read->Ok_0.1 == skip
                    && index + skip <= self@.pool.len(),
                Err(fault) => read == Err::<(Vec<u8>, usize), VmFault>(fault),
            },
    {
        let len = self.mem_pool.len();
        let span = self.options.ptr_len().get_span();
        if index >= len || span > len - index - 1 {
            return Err(VmFault::OutOfBounds);
        }
        let identifier = self.mem_pool[index];
        let read_size = self._extract_ptr(index + 1);
        let after = index + 1 + span;
        if identifier == byte_id::RDOP_LOCAL {
            if read_size > len - after {
                return Err(VmFault::OutOfBounds);
            }
            Ok((copy_range(&self.mem_pool, after, read_size), 1 + span + read_size))
        } else if identifier == byte_id::RDOP_POINT {
            if span > len - after {
                return Err(VmFault::OutOfBounds);
            }
            let location = self._extract_ptr(after);
            if location > len || read_size > len - location {
                return Err(VmFault::OutOfBounds);
            }
            Ok((copy_range(&self.mem_pool, location, read_size), 1 + 2 * span))
        } else {
            Err(VmFault::UnrecognizedReadOperation { byte: identifier })
        }
    }

    /// Resolve the read operation at the execution index, then skip it.
    fn handle_read_op_skip(&mut self) -> (read: Result<Vec<u8>, VmFault>)
        ensures
            match read_at(old(self)@.pool, old(self)@.index as int, *old(self).options.ptr_len()) {
                Ok((data, skip)) => read is Ok && read->Ok_0@ == data && final(self)@ == (VmState {
                    index: (old(self)@.index + skip) as usize,
                    ..old(self)@
                }) && old(self)@.index + skip <= old(self)@.pool.len(),
                Err(fault) => read == Err::<Vec<u8>, VmFault>(fault) && final(self)@ == old(self)@,
            },
    {
        let (data, skip) = self.handle_read_op(self.execution_index)?;
        let _ = self.mem_pool.len();
        self.execution_index = self.execution_index + skip;
        Ok(data)
    }

    /// Extract a pointer at the given index.
    fn _extract_ptr(&self, index: usize) -> (pointer: usize)
        requires
            self.options.ptr_len().in_bounds(index as int, self@.pool),
        ensures
            pointer == self.options.ptr_len().decode(index as int, self@.pool),
    {
        self.options.ptr_len().extract(index, self.mem_pool.as_slice())
    }

    /// Extract a pointer at the current execution index.
    fn extract_ptr(&self) -> (pointer: usize)
        requires
            self.options.ptr_len().in_bounds(self@.index as int, self@.pool),
        ensures
            pointer == self.options.ptr_len().decode(self@.index as int, self@.pool),
    {
        self._extract_ptr(self.execution_index)
    }

    /// Extract a pointer at the current execution index, then skip it.
    fn extract_ptr_skip(&mut self) -> (pointer: usize)
        requires
            old(self).options.ptr_len().in_bounds(old(self)@.index as int, old(self)@.pool),
        ensures
            pointer == old(self).options.ptr_len().decode(old(self)@.index as int, old(self)@.pool),
            final(self)@ == (VmState {
                index: (old(self)@.index + old(self).options.ptr_len().span()) as usize,
                ..old(self)@
            }),
    {
        let ptr = self.extract_ptr();
        let _ = self.mem_pool.len();
        self.execution_index = self.execution_index + self.options.ptr_len().get_span();
        ptr
    }

    /// Whether a pointer lies inside the memory pool at the execution index.
    fn holds_ptr(&self) -> (holds: bool)
        ensures
            holds == self.options.ptr_len().in_bounds(self@.index as int, self@.pool),
    {
        let len = self.mem_pool.len();
        self.execution_index <= len && self.options.ptr_len().get_span() <= len
            - self.execution_index
    }

    /// Execute the instruction at the execution index, if there is one.
    ///
    /// An extern call is decoded and skipped, not served: the status says
    /// which call waits. A fault leaves the machine and the context as
    /// they were.
    pub fn step(&mut self, ctx: &mut ExecutionContext) -> (result: Result<Status, VmFault>)
        ensures
            final(self)@ == step_of(old(self)@, old(ctx)@).vm,
            final(ctx)@ == step_of(old(self)@, old(ctx)@).ctx,
            result == step_of(old(self)@, old(ctx)@).result,
    {
        let start = self.execution_index;
        let len = self.mem_pool.len();
        if start >= len {
            return Ok(Status::Ended);
        }
        let byte_instruction = self.mem_pool[start];
        self.execution_index = start + 1;
        if byte_instruction == byte_id::I_JUMP {
            if !self.holds_ptr() {
                self.execution_index = start;
                return Err(VmFault::OutOfBounds);
            }
            self.execution_index = self.extract_ptr();
            Ok(Status::Running)
        } else if byte_instruction == byte_id::I_MUTATE {
            if !self.holds_ptr() {
                self.execution_index = start;
                return Err(VmFault::OutOfBounds);
            }
            let dest = self.extract_ptr_skip();
            let data = match self.handle_read_op_skip() {
                Ok(data) => data,
                Err(fault) => {
                    self.execution_index = start;
                    return Err(fault);
                },
            };
            if dest > len || data.len() > len - dest {
                self.execution_index = start;
                return Err(VmFault::OutOfBounds);
            }
            overwrite_range(&mut self.mem_pool, dest, data.as_slice());
            Ok(Status::Running)
        } else if byte_instruction == byte_id::I_PUSH {
            let data = match self.handle_read_op_skip() {
                Ok(data) => data,
                Err(fault) => {
                    self.execution_index = start;
                    return Err(fault);
                },
            };
            self.stack.push(data);
            assert(entries_of(self.stack@) =~= entries_of(old(self).stack@).push(data@));
            Ok(Status::Running)
        } else if byte_instruction == byte_id::I_EXTERN_CALL {
            if !self.holds_ptr() {
                self.execution_index = start;
                return Err(VmFault::OutOfBounds);
            }
            let call_id = self.extract_ptr_skip();
            Ok(Status::Calling(call_id))
        } else if byte_instruction == byte_id::I_CALL {
            if !self.holds_ptr() {
                self.execution_index = start;
                return Err(VmFault::OutOfBounds);
            }
            let target = self.extract_ptr_skip();
            self.call_stack.push(self.execution_index);
            self.execution_index = target;
            Ok(Status::Running)
        } else if byte_instruction == byte_id::I_RETURN {
            match self.call_stack.pop() {
                Some(caller) => {
                    self.execution_index = caller;
                    Ok(Status::Running)
                },
                None => Ok(Status::Halted),
            }
        } else if byte_instruction == byte_id::I_LOAD_A {
            let data = match self.handle_read_op_skip() {
                Ok(data) => data,
                Err(fault) => {
                    self.execution_index = start;
                    return Err(fault);
                },
            };
            ctx.ext_a = data;
            Ok(Status::Running)
        } else {
            self.execution_index = start;
            Err(VmFault::UnrecognizedInstruction { byte: byte_instruction, index: start })
        }
    }

    /// Start or resume execution at the current execution index, for at
    /// most `budget` instructions.
    ///
    /// The run ends with the status `Ended` when the execution index
    /// reaches or passes the end of the memory pool, `Halted` when a return
    /// finds the call stack empty, and `Running` when the budget is used up
    /// first: then an instruction is left to execute. After `Halted` the
    /// execution index stands behind the return. A fault in the bytecode
    /// ends it with an error and leaves the machine as it was before the
    /// faulty instruction. An extern call that fails ends it with that
    /// call's error.
    pub fn continue_execution<M: ExternMap>(
        &mut self,
        env: &mut ExecutionEnvironment<M>,
        budget: u64,
    ) -> (result: Result<Status, VmFault>)
        ensures
            run_may_end(
                old(env).extern_map,
                old(env).ctx@,
                old(self)@,
                budget as nat,
                final(env).extern_map,
                final(env).ctx@,
                final(self)@,
                result,
            ),
            !(result is Ok && result->Ok_0 is Calling),
            result == Ok::<Status, VmFault>(Status::Ended) ==> final(self)@.pool.len() <= final(
                self
            )@.index,
            result == Ok::<Status, VmFault>(Status::Running) ==> final(self)@.index < final(
                self
            )@.pool.len(),
            result == Ok::<Status, VmFault>(Status::Halted) ==> final(self)@.calls.len() == 0,
            result == Ok::<Status, VmFault>(Status::Halted) ==> 0 < final(self)@.index <= final(
                self
            )@.pool.len(),
            result == Ok::<Status, VmFault>(Status::Halted) ==> final(self)@.pool[final(
                self
            )@.index - 1] == byte_id::I_RETURN,
    {
        let mut left = budget;
        loop
            invariant
                forall|
                    map_end: M,
                    ctx_end: ContextState,
                    vm_end: VmState,
                    res: Result<Status, VmFault>,
                |
                    #[trigger] run_may_end(
                        env.extern_map,
                        env.ctx@,
                        self@,
                        left as nat,
                        map_end,
                        ctx_end,
                        vm_end,
                        res,
                    ) ==> run_may_end(
                        old(env).extern_map,
                        old(env).ctx@,
                        old(self)@,
                        budget as nat,
                        map_end,
                        ctx_end,
                        vm_end,
                        res,
                    ),
            decreases left,
        {
            let ghost map = env.extern_map;
            let ghost ctx = env.ctx@;
            let ghost vm = self@;
            let ghost ran = run_of(vm, ctx, left as nat);
            if self.execution_index >= self.mem_pool.len() {
                assert(run_may_end(map, ctx, vm, left as nat, map, ctx, vm, Ok(Status::Ended)));
                return Ok(Status::Ended);
            }
            if left == 0 {
                assert(run_may_end(map, ctx, vm, left as nat, map, ctx, vm, Ok(Status::Running)));
                return Ok(Status::Running);
            }
            let stepped = self.step(&mut env.ctx);
            left = left - 1;
            match stepped {
                Ok(Status::Running) => {
                    assert(ran == run_of(self@, env.ctx@, left as nat));
                    assert forall|
                        map_end: M,
                        ctx_end: ContextState,
                        vm_end: VmState,
                        res: Result<Status, VmFault>,
                    | #[trigger]
                        run_may_end(
                            env.extern_map,
                            env.ctx@,
                            self@,
                            left as nat,
                            map_end,
                            ctx_end,
                            vm_end,
                            res,
                        ) implies run_may_end(
                        old(env).extern_map,
                        old(env).ctx@,
                        old(self)@,
                        budget as nat,
                        map_end,
                        ctx_end,
                        vm_end,
                        res,
                    ) by {
                        assert(run_may_end(
                            map,
                            ctx,
                            vm,
                            (left + 1) as nat,
                            map_end,
                            ctx_end,
                            vm_end,
                            res,
                        ));
                    }
                },
                Ok(Status::Calling(call_id)) => {
                    let ghost called_ctx = env.ctx@;
                    let ghost called_vm = self@;
                    assert(ran.result == Ok::<Status, VmFault>(Status::Calling(call_id)));
                    assert(ran.vm == called_vm && ran.ctx == called_ctx && ran.left == left);
                    let outcome = env.call_extern(call_id, self);
                    assert(map.serves(
                        called_ctx,
                        called_vm,
                        call_id,
                        &env.extern_map,
                        env.ctx@,
                        self@,
                        outcome,
                    ));
                    match outcome {
                        Ok(_) => {
                            assert forall|
                                map_end: M,
                                ctx_end: ContextState,
                                vm_end: VmState,
                                res: Result<Status, VmFault>,
                            | #[trigger]
                                run_may_end(
                                    env.extern_map,
                                    env.ctx@,
                                    self@,
                                    left as nat,
                                    map_end,
                                    ctx_end,
                                    vm_end,
                                    res,
                                ) implies run_may_end(
                                old(env).extern_map,
                                old(env).ctx@,
                                old(self)@,
                                budget as nat,
                                map_end,
                                ctx_end,
                                vm_end,
                                res,
                            ) by {
                                assert(run_may_end(
                                    map,
                                    ctx,
                                    vm,
                                    (left + 1) as nat,
                                    map_end,
                                    ctx_end,
                                    vm_end,
                                    res,
                                ));
                            }
                        },
                        Err(fault) => {
                            assert(run_may_end(
                                map,
                                ctx,
                                vm,
                                (left + 1) as nat,
                                env.extern_map,
                                env.ctx@,
                                self@,
                                Err(fault),
                            ));
                            return Err(fault);
                        },
                    }
                },
                Ok(status) => {
                    assert(run_may_end(
                        map,
                        ctx,
                        vm,
                        (left + 1) as nat,
                        map,
                        env.ctx@,
                        self@,
                        Ok(status),
                    ));
                    return Ok(status);
                },
                Err(fault) => {
                    assert(run_may_end(
                        map,
                        ctx,
                        vm,
                        (left + 1) as nat,
                        map,
                        env.ctx@,
                        self@,
                        Err(fault),
                    ));
                    return Err(fault);
                },
            }
        }
    }

    /// Create a new VmInstance with the given memory pool, to start at `ptr_index`.
    pub fn new(program_options: ProgramOptions, mem_pool: Vec<u8>, ptr_index: usize) -> (vm:
        VmInstance)
        ensures
            vm@ == (VmState {
                options: program_options,
                pool: mem_pool@,
                index: ptr_index,
                stack: Seq::empty(),
                calls: Seq::empty(),
            }),
    {
        let vm = VmInstance {
            options: program_options,
            mem_pool,
            execution_index: ptr_index,
            stack: Vec::with_capacity(3),
            call_stack: Vec::new(),
        };
        assert(entries_of(vm.stack@) =~= Seq::<Seq<u8>>::empty());
        vm
    }

    /// Create an empty VmInstance, with compile feature version 0 and 32 bit pointers.
    pub fn mock() -> (vm: VmInstance)
        ensures
            vm@.options.cfv() == 0,
            vm@.options.ptr_len() == MemoryPointerLength::X32b,
            vm@.pool == Seq::<u8>::empty(),
            vm@.index == 0,
            vm@.stack == Seq::<Seq<u8>>::empty(),
            vm@.calls == Seq::<usize>::empty(),
    {
        VmInstance::new(ProgramOptions::new(0, MemoryPointerLength::X32b), Vec::new(), 0)
    }
}

} // verus!
