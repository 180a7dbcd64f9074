//! The machine as mathematics: its state, what the bytes at an index
//! decode to, and what one instruction does.

use crate::byte_id;
use crate::compile::{InstructionView, ReadOperationView};
use crate::options::{MemoryPointerLength, ProgramOptions};
use vstd::prelude::*;

verus! {

/// A fault in the bytecode or in an extern call. It ends the run.
#[derive(Clone, Copy, Debug, PartialEq, Eq, Structural)]
pub enum VmFault {
    /// The byte at `index` names no instruction.
    UnrecognizedInstruction { byte: u8, index: usize },
    /// The first byte of a read operation names none.
    UnrecognizedReadOperation { byte: u8 },
    /// An instruction has operands, or points to bytes, that lie outside the
    /// memory pool.
    OutOfBounds,
    /// An extern call needed the bytes of `ext_a`, and `ext_a` was empty.
    NullExtA,
    /// The memory pool is too short to hold the register at this offset.
    MissingRegister { register: usize },
    /// The extern map in use does not know the call id.
    UnrecognizedExtern { call_id: usize },
    /// An extern call reached an extern map that serves none.
    EmptyExternMap { call_id: usize },
    /// A guard refused the extern call.
    IllegalExternCall { call_id: usize, execution_index: usize },
}

/// Where a machine stands after it was asked to execute.
#[derive(Clone, Copy, Debug, PartialEq, Eq, Structural)]
pub enum Status {
    /// There is an instruction at the execution index: the machine can go on.
    Running,
    /// The execution index has reached or passed the end of the memory pool.
    Ended,
    /// A return found the call stack empty.
    Halted,
    /// An extern call with this id was decoded and waits to be served.
    Calling(usize),
}

/// The registers of an execution context.
pub struct ContextState {
    /// The bytes that the last `I_LOAD_A` loaded.
    pub ext_a: Seq<u8>,
    /// Whether the last output operation succeeded.
    pub ext_1: bool,
}

/// The state of a machine.
pub struct VmState {
    pub options: ProgramOptions,
    pub pool: Seq<u8>,
    pub index: usize,
    pub stack: Seq<Seq<u8>>,
    pub calls: Seq<usize>,
}

impl VmState {
    /// Whether the memory pool is one that a machine can hold: its length
    /// is a `usize`.
    pub open spec fn fits_memory(self) -> bool {
        self.pool.len() <= usize::MAX
    }
}

/// The pointer of the given width at `at`, if it lies inside the pool.
pub open spec fn pointer_at(pool: Seq<u8>, at: int, width: MemoryPointerLength) -> Option<usize> {
    if width.in_bounds(at, pool) {
        Some(width.decode(at, pool))
    } else {
        None
    }
}

/// The read operation that starts at `at`, with the number of bytes it
/// takes up.
///
/// The length is read before the first byte is looked at, so a read
/// operation cut short is out of bounds whatever its first byte.
pub open spec fn decode_read_operation(
    pool: Seq<u8>,
    at: int,
    width: MemoryPointerLength,
) -> Result<(ReadOperationView, nat), VmFault> {
    let span = width.span();
    if !(0 <= at < pool.len()) || !width.in_bounds(at + 1, pool) {
        Err(VmFault::OutOfBounds)
    } else {
        let len = width.decode(at + 1, pool);
        let after = at + 1 + span;
        if pool[at] == byte_id::RDOP_LOCAL {
            if after + len <= pool.len() {
                Ok(
                    (
                        ReadOperationView::Local(pool.subrange(after, after + len)),
                        (1 + span + len) as nat,
                    ),
                )
            } else {
                Err(VmFault::OutOfBounds)
            }
        } else if pool[at] == byte_id::RDOP_POINT {
            if width.in_bounds(after, pool) {
                Ok(
                    (
                        ReadOperationView::Point(len, width.decode(after, pool)),
                        (1 + 2 * span) as nat,
                    ),
                )
            } else {
                Err(VmFault::OutOfBounds)
            }
        } else {
            Err(VmFault::UnrecognizedReadOperation { byte: pool[at] })
        }
    }
}

/// The instruction at `index`, with the number of bytes it takes up.
pub open spec fn decode_instruction(pool: Seq<u8>, index: usize, width: MemoryPointerLength)
    -> Result<(InstructionView, nat), VmFault>
    recommends
        index < pool.len(),
{
    let span = width.span();
    let opcode = pool[index as int];
    let at = index + 1;
    let out_of_bounds = Err::<(InstructionView, nat), VmFault>(VmFault::OutOfBounds);
    if opcode == byte_id::I_JUMP {
        match pointer_at(pool, at, width) {
            Some(target) => Ok((InstructionView::Jump(target), (1 + span) as nat)),
            None => out_of_bounds,
        }
    } else if opcode == byte_id::I_PUSH {
        match decode_read_operation(pool, at, width) {
            Ok((rd, len)) => Ok((InstructionView::Push(rd), (1 + len) as nat)),
            Err(fault) => Err(fault),
        }
    } else if opcode == byte_id::I_MUTATE {
        match pointer_at(pool, at, width) {
            Some(dest) => match decode_read_operation(pool, at + span, width) {
                Ok((rd, len)) => Ok((InstructionView::Mutate(dest, rd), (1 + span + len) as nat)),
                Err(fault) => Err(fault),
            },
            None => out_of_bounds,
        }
    } else if opcode == byte_id::I_EXTERN_CALL {
        match pointer_at(pool, at, width) {
            Some(call_id) => Ok((InstructionView::ExternCall(call_id), (1 + span) as nat)),
            None => out_of_bounds,
        }
    } else if opcode == byte_id::I_RETURN {
        Ok((InstructionView::Return, 1))
    } else if opcode == byte_id::I_CALL {
        match pointer_at(pool, at, width) {
            Some(target) => Ok((InstructionView::Call(target), (1 + span) as nat)),
            None => out_of_bounds,
        }
    } else if opcode == byte_id::I_LOAD_A {
        match decode_read_operation(pool, at, width) {
            Ok((rd, len)) => Ok((InstructionView::LoadA(rd), (1 + len) as nat)),
            Err(fault) => Err(fault),
        }
    } else {
        Err(VmFault::UnrecognizedInstruction { byte: opcode, index })
    }
}

/// The bytes that a read operation stands for, if they lie inside the pool.
pub open spec fn resolve(pool: Seq<u8>, rd: ReadOperationView) -> Option<Seq<u8>> {
    match rd {
        ReadOperationView::Local(bytes) => Some(bytes),
        ReadOperationView::Point(len, index) => if index + len <= pool.len() {
            Some(pool.subrange(index as int, index + len))
        } else {
            None
        },
    }
}

/// The bytes that the read operation at `at` stands for, with the number of
/// bytes that the operation itself takes up.
pub open spec fn read_at(pool: Seq<u8>, at: int, width: MemoryPointerLength) -> Result<
    (Seq<u8>, nat),
    VmFault,
> {
    match decode_read_operation(pool, at, width) {
        Ok((rd, len)) => match resolve(pool, rd) {
            Some(data) => Ok((data, len)),
            None => Err(VmFault::OutOfBounds),
        },
        Err(fault) => Err(fault),
    }
}

/// The pool with `data` written over the bytes that start at `dest`.
pub open spec fn overwrite(pool: Seq<u8>, dest: int, data: Seq<u8>) -> Seq<u8>
    recommends
        0 <= dest,
        dest + data.len() <= pool.len(),
{
    pool.subrange(0, dest) + data + pool.subrange(dest + data.len(), pool.len() as int)
}

/// A machine, its execution context, and how the last request to execute
/// ended.
pub struct Stepped {
    pub vm: VmState,
    pub ctx: ContextState,
    pub result: Result<Status, VmFault>,
}

/// What the instruction does that was decoded at the execution index and
/// takes up `len` bytes. A fault leaves the machine as it was.
pub open spec fn execute(vm: VmState, ctx: ContextState, instruction: InstructionView, len: nat)
    -> Stepped {
    let next = (vm.index + len) as usize;
    let fault = Stepped { vm, ctx, result: Err(VmFault::OutOfBounds) };
    match instruction {
        InstructionView::Jump(target) => Stepped {
            vm: VmState { index: target, ..vm },
            ctx,
            result: Ok(Status::Running),
        },
        InstructionView::Push(rd) => match resolve(vm.pool, rd) {
            Some(data) => Stepped {
                vm: VmState { index: next, stack: vm.stack.push(data), ..vm },
                ctx,
                result: Ok(Status::Running),
            },
            None => fault,
        },
        InstructionView::Mutate(dest, rd) => match resolve(vm.pool, rd) {
            Some(data) => if dest + data.len() <= vm.pool.len() {
                Stepped {
                    vm: VmState {
                        index: next,
                        pool: overwrite(vm.pool, dest as int, data),
                        ..vm
                    },
                    ctx,
                    result: Ok(Status::Running),
                }
            } else {
                fault
            },
            None => fault,
        },
        InstructionView::ExternCall(call_id) => Stepped {
            vm: VmState { index: next, ..vm },
            ctx,
            result: Ok(Status::Calling(call_id)),
        },
        InstructionView::Return => if vm.calls.len() == 0 {
            Stepped { vm: VmState { index: next, ..vm }, ctx, result: Ok(Status::Halted) }
        } else {
            Stepped {
                vm: VmState { index: vm.calls.last(), calls: vm.calls.drop_last(), ..vm },
                ctx,
                result: Ok(Status::Running),
            }
        },
        InstructionView::Call(target) => Stepped {
            vm: VmState { index: target, calls: vm.calls.push(next), ..vm },
            ctx,
            result: Ok(Status::Running),
        },
        InstructionView::LoadA(rd) => match resolve(vm.pool, rd) {
            Some(data) => Stepped {
                vm: VmState { index: next, ..vm },
                ctx: ContextState { ext_a: data, ..ctx },
                result: Ok(Status::Running),
            },
            None => fault,
        },
    }
}

/// One request to execute: nothing happens past the end of the pool;
/// before it, the instruction at the execution index is decoded and
/// executed. A fault leaves the machine as it was.
pub open spec fn step_of(vm: VmState, ctx: ContextState) -> Stepped {
    if vm.index >= vm.pool.len() {
        Stepped { vm, ctx, result: Ok(Status::Ended) }
    } else {
        match decode_instruction(vm.pool, vm.index, *vm.options.ptr_len()) {
            Ok((instruction, len)) => execute(vm, ctx, instruction, len),
            Err(fault) => Stepped { vm, ctx, result: Err(fault) },
        }
    }
}

/// A run, as far as the machine gets by itself: what a run reaches, and
/// how many of its steps are left.
pub struct Ran {
    pub vm: VmState,
    pub ctx: ContextState,
    pub result: Result<Status, VmFault>,
    pub left: nat,
}

/// Execute instructions until the pool ends, a return halts the machine, an
/// extern call waits to be served, a fault occurs, or `budget` instructions
/// were executed. The status `Running` says that the budget ran out first.
pub open spec fn run_of(vm: VmState, ctx: ContextState, budget: nat) -> Ran
    decreases budget,
{
    let stepped = step_of(vm, ctx);
    if vm.index >= vm.pool.len() {
        Ran { vm, ctx, result: Ok(Status::Ended), left: budget }
    } else if budget == 0 {
        Ran { vm, ctx, result: Ok(Status::Running), left: 0 }
    } else if stepped.result == Ok::<Status, VmFault>(Status::Running) {
        run_of(stepped.vm, stepped.ctx, (budget - 1) as nat)
    } else {
        Ran {
            vm: stepped.vm,
            ctx: stepped.ctx,
            result: stepped.result,
            left: (budget - 1) as nat,
        }
    }
}

/// A run leaves no more steps than it was given, and fewer once it has
/// decoded an extern call. It stops with the status `Running` only when
/// no step is left.
pub proof fn lemma_run_uses_budget(vm: VmState, ctx: ContextState, budget: nat)
    ensures
        run_of(vm, ctx, budget).left <= budget,
        run_of(vm, ctx, budget).result is Ok && run_of(vm, ctx, budget).result->Ok_0 is Calling
            ==> run_of(vm, ctx, budget).left < budget,
        run_of(vm, ctx, budget).result == Ok::<Status, VmFault>(Status::Running) ==> run_of(
            vm,
            ctx,
            budget,
        ).left == 0,
    decreases budget,
{
    let stepped = step_of(vm, ctx);
    if vm.index < vm.pool.len() && budget > 0 && stepped.result == Ok::<Status, VmFault>(
        Status::Running,
    ) {
        lemma_run_uses_budget(stepped.vm, stepped.ctx, (budget - 1) as nat);
    }
}

/// A read operation whose operands fit the pointer width is decoded from
/// wherever its encoding lies in a pool, and takes up as many bytes as
/// were written for it.
pub proof fn lemma_decode_encoded_read_operation(
    pool: Seq<u8>,
    at: int,
    width: MemoryPointerLength,
    rd: ReadOperationView,
)
    requires
        rd.fits(width),
        0 <= at,
        at + rd.encoding(width).len() <= pool.len(),
        pool.subrange(at, at + rd.encoding(width).len()) == rd.encoding(width),
    ensures
        decode_read_operation(pool, at, width) == Ok::<(ReadOperationView, nat), VmFault>(
            (rd, rd.encoding(width).len()),
        ),
{
    let span = width.span() as int;
    let enc = rd.encoding(width);
    assert(pool[at] == enc[0]);
    match rd {
        ReadOperationView::Local(bytes) => {
            let len = bytes.len() as usize;
            assert(enc.len() == 1 + span + bytes.len());
            assert(pool.subrange(at + 1, at + 1 + span) =~= enc.subrange(1, 1 + span));
            assert(enc.subrange(1, 1 + span) =~= width.encode(len));
            width.lemma_decode_encoded(len, pool, at + 1);
            assert(pool.subrange(at + 1 + span, at + 1 + span + len) =~= enc.subrange(
                1 + span,
                1 + span + len,
            ));
            assert(enc.subrange(1 + span, 1 + span + len) =~= bytes);
        },
        ReadOperationView::Point(len, index) => {
            assert(enc.len() == 1 + 2 * span);
            assert(pool.subrange(at + 1, at + 1 + span) =~= enc.subrange(1, 1 + span));
            assert(enc.subrange(1, 1 + span) =~= width.encode(len));
            width.lemma_decode_encoded(len, pool, at + 1);
            assert(pool.subrange(at + 1 + span, at + 1 + 2 * span) =~= enc.subrange(
                1 + span,
                1 + 2 * span,
            ));
            assert(enc.subrange(1 + span, 1 + 2 * span) =~= width.encode(index));
            width.lemma_decode_encoded(index, pool, at + 1 + span);
        },
    }
}

/// An instruction whose operands fit the pointer width is decoded from
/// wherever its encoding lies in a pool, and takes up as many bytes as
/// were written for it.
pub proof fn lemma_decode_encoded_instruction(
    pool: Seq<u8>,
    index: usize,
    width: MemoryPointerLength,
    instruction: InstructionView,
)
    requires
        instruction.fits(width),
        index + instruction.encoding(width).len() <= pool.len(),
        pool.subrange(index as int, index + instruction.encoding(width).len())
            == instruction.encoding(width),
    ensures
        decode_instruction(pool, index, width) == Ok::<(InstructionView, nat), VmFault>(
            (instruction, instruction.encoding(width).len()),
        ),
{
    let span = width.span() as int;
    let enc = instruction.encoding(width);
    let at = index + 1;
    assert(pool[index as int] == enc[0]);
    match instruction {
        InstructionView::Jump(pointer) | InstructionView::ExternCall(pointer)
        | InstructionView::Call(pointer) => {
            assert(pool.subrange(at, at + span) =~= enc.subrange(1, 1 + span));
            assert(enc.subrange(1, 1 + span) =~= width.encode(pointer));
            width.lemma_decode_encoded(pointer, pool, at);
        },
        InstructionView::Push(rd) | InstructionView::LoadA(rd) => {
            let len = rd.encoding(width).len() as int;
            assert(pool.subrange(at, at + len) =~= enc.subrange(1, 1 + len));
            assert(enc.subrange(1, 1 + len) =~= rd.encoding(width));
            lemma_decode_encoded_read_operation(pool, at, width, rd);
        },
        InstructionView::Mutate(dest, rd) => {
            let len = rd.encoding(width).len() as int;
            assert(pool.subrange(at, at + span) =~= enc.subrange(1, 1 + span));
            assert(enc.subrange(1, 1 + span) =~= width.encode(dest));
            width.lemma_decode_encoded(dest, pool, at);
            assert(pool.subrange(at + span, at + span + len) =~= enc.subrange(
                1 + span,
                1 + span + len,
            ));
            assert(enc.subrange(1 + span, 1 + span + len) =~= rd.encoding(width));
            lemma_decode_encoded_read_operation(pool, at + span, width, rd);
        },
        InstructionView::Return => {},
    }
}

/// The machine never changes its options or the length of its memory pool.
pub proof fn lemma_step_keeps_pool_len(vm: VmState, ctx: ContextState)
    ensures
        step_of(vm, ctx).vm.options == vm.options,
        step_of(vm, ctx).vm.pool.len() == vm.pool.len(),
{
}

/// A run by the machine itself never changes the options or the length of
/// the memory pool.
pub proof fn lemma_run_keeps_pool_len(vm: VmState, ctx: ContextState, budget: nat)
    ensures
        run_of(vm, ctx, budget).vm.options == vm.options,
        run_of(vm, ctx, budget).vm.pool.len() == vm.pool.len(),
    decreases budget,
{
    let stepped = step_of(vm, ctx);
    lemma_step_keeps_pool_len(vm, ctx);
    if vm.index < vm.pool.len() && budget > 0 && stepped.result == Ok::<Status, VmFault>(
        Status::Running,
    ) {
        lemma_run_keeps_pool_len(stepped.vm, stepped.ctx, (budget - 1) as nat);
    }
}

/// Past the end of the memory pool a run ends at once and changes nothing.
pub proof fn lemma_run_past_end(vm: VmState, ctx: ContextState, budget: nat)
    requires
        vm.index >= vm.pool.len(),
    ensures
        run_of(vm, ctx, budget) == (Ran { vm, ctx, result: Ok(Status::Ended), left: budget }),
{
}

} // verus!
