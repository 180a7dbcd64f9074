//! What holds of the bytecode and of the machine whatever the program.

use crate::compile::{InstructionView, ReadOperationView};
use crate::machine::{
    decode_instruction, execute, lemma_decode_encoded_instruction,
    lemma_decode_encoded_read_operation, lemma_step_keeps_pool_len, read_at, run_of, step_of,
    ContextState, Status, VmFault, VmState,
};
use crate::options::MemoryPointerLength;
use vstd::prelude::*;

verus! {

/// Whether the encoding of `instruction` lies in the pool at the execution
/// index, with operands that fit the pointer width of the machine.
pub open spec fn stands_at_index(vm: VmState, instruction: InstructionView) -> bool {
    let width = *vm.options.ptr_len();
    let len = instruction.encoding(width).len();
    &&& instruction.fits(width)
    &&& vm.index + len <= vm.pool.len()
    &&& vm.pool.subrange(vm.index as int, vm.index + len) == instruction.encoding(width)
}

/// The machine consumes exactly the bytes that were written for an
/// instruction: the instruction is decoded with the length of its encoding,
/// and executing it moves the execution index by that length, unless the
/// instruction itself sets the index. A call keeps that index to return to.
pub proof fn lemma_step_consumes_what_was_written(
    vm: VmState,
    ctx: ContextState,
    instruction: InstructionView,
)
    requires
        vm.fits_memory(),
        stands_at_index(vm, instruction),
    ensures
        decode_instruction(vm.pool, vm.index, *vm.options.ptr_len()) == Ok::<
            (InstructionView, nat),
            VmFault,
        >((instruction, instruction.encoding(*vm.options.ptr_len()).len())),
        step_of(vm, ctx) == execute(
            vm,
            ctx,
            instruction,
            instruction.encoding(*vm.options.ptr_len()).len(),
        ),
        step_of(vm, ctx).result is Ok ==> match instruction {
            InstructionView::Jump(target) => step_of(vm, ctx).vm.index == target,
            InstructionView::Call(target) => {
                &&& step_of(vm, ctx).vm.index == target
                &&& step_of(vm, ctx).vm.calls.last() == vm.index + instruction.encoding(
                    *vm.options.ptr_len(),
                ).len()
            },
            InstructionView::Return => vm.calls.len() == 0 ==> step_of(vm, ctx).vm.index
                == vm.index + 1,
            _ => step_of(vm, ctx).vm.index == vm.index + instruction.encoding(
                *vm.options.ptr_len(),
            ).len(),
        },
{
    lemma_decode_encoded_instruction(vm.pool, vm.index, *vm.options.ptr_len(), instruction);
}

/// Only a jump, a call and a return can set the execution index back or
/// leave it where it is: every other instruction that does not fault moves
/// it forward, and no further than the end of the memory pool. A run can
/// go on without end only through jumps, calls and returns.
pub proof fn lemma_only_transfers_go_back(vm: VmState, ctx: ContextState)
    requires
        vm.fits_memory(),
        vm.index < vm.pool.len(),
        step_of(vm, ctx).result is Ok,
    ensures
        match decode_instruction(vm.pool, vm.index, *vm.options.ptr_len()) {
            Ok((InstructionView::Jump(_), _)) => true,
            Ok((InstructionView::Call(_), _)) => true,
            Ok((InstructionView::Return, _)) => vm.calls.len() == 0 ==> step_of(vm, ctx).vm.index
                == vm.index + 1,
            Ok(_) => vm.index < step_of(vm, ctx).vm.index <= vm.pool.len(),
            Err(_) => false,
        },
{
}

/// Whether the execution index moves forward with every instruction that
/// a run of at most `budget` instructions executes by itself.
pub open spec fn goes_forward(vm: VmState, ctx: ContextState, budget: nat) -> bool
    decreases budget,
{
    let stepped = step_of(vm, ctx);
    if vm.index >= vm.pool.len() || budget == 0 || stepped.result != Ok::<Status, VmFault>(
        Status::Running,
    ) {
        true
    } else {
        vm.index < stepped.vm.index && goes_forward(stepped.vm, stepped.ctx, (budget - 1) as nat)
    }
}

/// A run in which the execution index only moves forward, and that is
/// given at least as many steps as there are bytes between the execution
/// index and the end of the memory pool, does not run out of steps: it
/// ends, halts, reaches an extern call or faults.
pub proof fn lemma_forward_run_ends(vm: VmState, ctx: ContextState, budget: nat)
    requires
        goes_forward(vm, ctx, budget),
        vm.index + budget >= vm.pool.len(),
    ensures
        run_of(vm, ctx, budget).result != Ok::<Status, VmFault>(Status::Running),
    decreases budget,
{
    let stepped = step_of(vm, ctx);
    if vm.index < vm.pool.len() && budget > 0 && stepped.result == Ok::<Status, VmFault>(
        Status::Running,
    ) {
        lemma_step_keeps_pool_len(vm, ctx);
        lemma_forward_run_ends(stepped.vm, stepped.ctx, (budget - 1) as nat);
    }
}

/// Bytes that were written as a local read operation are the bytes that
/// resolving the operation gives.
pub proof fn lemma_local_reads_what_was_written(
    pool: Seq<u8>,
    at: int,
    width: MemoryPointerLength,
    bytes: Seq<u8>,
)
    requires
        ReadOperationView::Local(bytes).fits(width),
        0 <= at,
        at + ReadOperationView::Local(bytes).encoding(width).len() <= pool.len(),
        pool.subrange(at, at + ReadOperationView::Local(bytes).encoding(width).len())
            == ReadOperationView::Local(bytes).encoding(width),
    ensures
        read_at(pool, at, width) == Ok::<(Seq<u8>, nat), VmFault>(
            (bytes, ReadOperationView::Local(bytes).encoding(width).len()),
        ),
{
    lemma_decode_encoded_read_operation(pool, at, width, ReadOperationView::Local(bytes));
}

/// A read operation that was written to point at `len` bytes at `index`
/// resolves to the first `len` bytes of the data that the pool holds there.
pub proof fn lemma_point_reads_what_the_pool_holds(
    pool: Seq<u8>,
    at: int,
    width: MemoryPointerLength,
    len: usize,
    index: usize,
    data: Seq<u8>,
)
    requires
        ReadOperationView::Point(len, index).fits(width),
        0 <= at,
        at + ReadOperationView::Point(len, index).encoding(width).len() <= pool.len(),
        pool.subrange(at, at + ReadOperationView::Point(len, index).encoding(width).len())
            == ReadOperationView::Point(len, index).encoding(width),
        len <= data.len(),
        index + data.len() <= pool.len(),
        pool.subrange(index as int, index + data.len()) == data,
    ensures
        read_at(pool, at, width) == Ok::<(Seq<u8>, nat), VmFault>(
            (data.take(len as int), ReadOperationView::Point(len, index).encoding(width).len()),
        ),
{
    lemma_decode_encoded_read_operation(pool, at, width, ReadOperationView::Point(len, index));
    assert(pool.subrange(index as int, index + len) =~= data.take(len as int));
}

/// The machine after the given instructions were executed one after the
/// other, each with the length of its encoding.
pub open spec fn after_all(vm: VmState, ctx: ContextState, done: Seq<(InstructionView, nat)>)
    -> VmState
    decreases done.len(),
{
    if done.len() == 0 {
        vm
    } else {
        execute(after_all(vm, ctx, done.drop_last()), ctx, done.last().0, done.last().1).vm
    }
}

/// How many more calls than returns there are among the instructions.
pub open spec fn open_calls(done: Seq<(InstructionView, nat)>) -> int
    decreases done.len(),
{
    if done.len() == 0 {
        0
    } else if done.last().0 is Call {
        open_calls(done.drop_last()) + 1
    } else {
        open_calls(done.drop_last()) - 1
    }
}

/// Whether the instructions are calls and returns only, and no return
/// comes before its call.
pub open spec fn returns_follow_calls(done: Seq<(InstructionView, nat)>) -> bool {
    &&& forall|i: int| 0 <= i < done.len() ==> (#[trigger] done[i]).0 is Call || done[i].0 is Return
    &&& forall|k: int| 0 <= k <= done.len() ==> open_calls(#[trigger] done.take(k)) >= 0
}

/// Whether the instructions are calls and returns in balanced pairs.
pub open spec fn balanced(done: Seq<(InstructionView, nat)>) -> bool {
    returns_follow_calls(done) && open_calls(done) == 0
}

/// Calls and returns change the call stack above what was there, and the
/// execution index, and nothing else.
proof fn lemma_calls_stack_up(vm: VmState, ctx: ContextState, done: Seq<(InstructionView, nat)>)
    requires
        returns_follow_calls(done),
    ensures
        after_all(vm, ctx, done).options == vm.options,
        after_all(vm, ctx, done).pool == vm.pool,
        after_all(vm, ctx, done).stack == vm.stack,
        after_all(vm, ctx, done).calls.len() == vm.calls.len() + open_calls(done),
        after_all(vm, ctx, done).calls.take(vm.calls.len() as int) == vm.calls,
    decreases done.len(),
{
    if done.len() == 0 {
        assert(vm.calls.take(vm.calls.len() as int) =~= vm.calls);
    } else {
        let before = done.drop_last();
        assert forall|k: int| 0 <= k <= before.len() implies open_calls(
            #[trigger] before.take(k),
        ) >= 0 by {
            assert(before.take(k) =~= done.take(k));
        }
        assert forall|i: int| 0 <= i < before.len() implies (#[trigger] before[i]).0 is Call
            || before[i].0 is Return by {
            assert(before[i] == done[i]);
        }
        lemma_calls_stack_up(vm, ctx, before);
        assert(done.take(done.len() as int) =~= done);
        assert(before.take(before.len() as int) =~= before);
        let prev = after_all(vm, ctx, before);
        let now = after_all(vm, ctx, done);
        assert(done[done.len() - 1].0 is Call || done[done.len() - 1].0 is Return);
        assert(now.calls.take(vm.calls.len() as int) =~= prev.calls.take(vm.calls.len() as int));
    }
}

/// Executing one run of instructions after another is executing both runs
/// in a row.
proof fn lemma_after_all_in_a_row(
    vm: VmState,
    ctx: ContextState,
    first: Seq<(InstructionView, nat)>,
    second: Seq<(InstructionView, nat)>,
)
    ensures
        after_all(vm, ctx, first + second) == after_all(after_all(vm, ctx, first), ctx, second),
    decreases second.len(),
{
    if second.len() == 0 {
        assert(first + second =~= first);
    } else {
        lemma_after_all_in_a_row(vm, ctx, first, second.drop_last());
        assert((first + second).drop_last() =~= first + second.drop_last());
    }
}

/// After calls and returns in balanced pairs, the memory pool, the data
/// stack and the call stack are what they were before.
pub proof fn lemma_balanced_calls_restore(
    vm: VmState,
    ctx: ContextState,
    done: Seq<(InstructionView, nat)>,
)
    requires
        balanced(done),
    ensures
        after_all(vm, ctx, done).options == vm.options,
        after_all(vm, ctx, done).pool == vm.pool,
        after_all(vm, ctx, done).stack == vm.stack,
        after_all(vm, ctx, done).calls == vm.calls,
{
    lemma_calls_stack_up(vm, ctx, done);
    let calls = after_all(vm, ctx, done).calls;
    assert(calls.take(vm.calls.len() as int) =~= calls);
}

/// A call, balanced pairs of calls and returns inside it, and its return
/// leave the machine as it was, with the execution index behind the call.
pub proof fn lemma_call_returns_behind_itself(
    vm: VmState,
    ctx: ContextState,
    target: usize,
    len: nat,
    inside: Seq<(InstructionView, nat)>,
    return_len: nat,
)
    requires
        balanced(inside),
        vm.index + len <= usize::MAX,
    ensures
        after_all(
            vm,
            ctx,
            seq![(InstructionView::Call(target), len)] + inside + seq![
                (InstructionView::Return, return_len),
            ],
        ) == (VmState { index: (vm.index + len) as usize, ..vm }),
{
    let call = seq![(InstructionView::Call(target), len)];
    let ret = seq![(InstructionView::Return, return_len)];
    let called = after_all(vm, ctx, call);
    assert(call.drop_last() =~= Seq::<(InstructionView, nat)>::empty());
    assert(after_all(vm, ctx, call.drop_last()) == vm);
    assert(called == execute(vm, ctx, InstructionView::Call(target), len).vm);
    lemma_after_all_in_a_row(vm, ctx, call, inside);
    lemma_balanced_calls_restore(called, ctx, inside);
    let before_return = after_all(vm, ctx, call + inside);
    assert((call + inside + ret).drop_last() =~= call + inside);
    assert(before_return.calls == vm.calls.push((vm.index + len) as usize));
    assert(before_return.calls.drop_last() =~= vm.calls);
}

} // verus!
