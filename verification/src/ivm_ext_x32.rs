//! The `ivm_ext_x32` extern table: writing to an output, flushing it, and
//! ending the run, with the error register that reports how output went.
//!
//! The first four bytes of the memory pool are the error register. After
//! an output operation it holds `0` if the operation succeeded, else the
//! error code of the operating system, or `-1` where there is none, as a
//! little-endian `i32`. A program reads it with the read operation
//! `Point(4, 0)`.

use crate::compile::{bytecode_of_all, compile_all, Instruction};
use crate::machine::{
    lemma_run_keeps_pool_len, lemma_run_past_end, overwrite, run_of, ContextState, Status, VmFault,
    VmState,
};
use crate::options::{MemoryPointerLength, ProgramOptions, CCFV};
use crate::pointer::le_bytes;
use crate::vm::{overwrite_range, run_may_end, ExecutionContext, ExternMap, VmInstance};
use vstd::prelude::*;

verus! {

/// Extern call id `0`: write the bytes loaded in `ext_a` to the output.
pub const EXTC_STDOUT_WRITE: usize = 0;

/// Extern call id `1`: flush the output.
pub const EXTC_STDOUT_FLUSH: usize = 1;

/// Extern call id `2`: set the execution index to the length of the memory
/// pool, which ends the run.
pub const EXTC_JUMP_OVERFLOW: usize = 2;

/// The offset of the error register, which holds an `i32`.
pub const REG_ERROR: usize = 0;

/// How many bytes at the start of the memory pool are kept for registers.
pub const REGISTER_RESERVED: usize = 4;

/// How an output operation went: `Ok`, or the error code of the operating
/// system if it gave one.
pub type OutputResult = Result<(), Option<i32>>;

/// Where the bytes go that a program writes.
pub trait Output: Sized {
    /// Whether writing `data` may turn this output into `after` and end
    /// with `result`. An output that says nothing of itself may do anything.
    open spec fn wrote(&self, data: Seq<u8>, after: &Self, result: OutputResult) -> bool {
        true
    }

    /// Whether flushing may turn this output into `after` and end with
    /// `result`. An output that says nothing of itself may do anything.
    open spec fn flushed(&self, after: &Self, result: OutputResult) -> bool {
        true
    }

    /// Write all of `data`.
    fn write_all(&mut self, data: &[u8]) -> (result: OutputResult)
        ensures
            old(self).wrote(data@, final(self), result),
    ;

    /// Make sure that everything written has reached its destination.
    fn flush(&mut self) -> (result: OutputResult)
        ensures
            old(self).flushed(final(self), result),
    ;
}

/// An output that keeps what is written to it, and never fails.
pub struct OutputBuffer {
    /// Every byte written so far, in order.
    pub written: Vec<u8>,
    /// How many times the output was flushed.
    pub flushes: u64,
}

impl OutputBuffer {
    /// An output with nothing written and no flush.
    pub fn new() -> (output: OutputBuffer)
        ensures
            output.written@ == Seq::<u8>::empty(),
            output.flushes == 0,
    {
        OutputBuffer { written: Vec::new(), flushes: 0 }
    }
}

impl Output for OutputBuffer {
    open spec fn wrote(&self, data: Seq<u8>, after: &Self, result: OutputResult) -> bool {
        &&& after.written@ == self.written@ + data
        &&& after.flushes == self.flushes
        &&& result is Ok
    }

    open spec fn flushed(&self, after: &Self, result: OutputResult) -> bool {
        &&& after.written@ == self.written@
        &&& after.flushes == if self.flushes < u64::MAX {
            (self.flushes + 1) as u64
        } else {
            self.flushes
        }
        &&& result is Ok
    }

    fn write_all(&mut self, data: &[u8]) -> (result: OutputResult) {
        crate::compile::append_bytes(&mut self.written, data);
        Ok(())
    }

    fn flush(&mut self) -> (result: OutputResult) {
        if self.flushes < u64::MAX {
            self.flushes = self.flushes + 1;
        }
        Ok(())
    }
}

/// Copy the data into the memory pool at the given register index.
pub fn write_register(reg_index: usize, data: &[u8], mem_pool: &mut Vec<u8>)
    requires
        reg_index + data@.len() <= old(mem_pool)@.len(),
    ensures
        final(mem_pool)@ == overwrite(old(mem_pool)@, reg_index as int, data@),
{
    overwrite_range(mem_pool, reg_index, data)
}

/// The error code that reports `result`: 0 for success, else the code of
/// the operating system, or -1 where it gave none.
pub open spec fn error_code(result: OutputResult) -> i32 {
    match result {
        Ok(_) => 0,
        Err(Some(code)) => code,
        Err(None) => -1i32,
    }
}

/// The four little-endian bytes of an `i32` in two's complement.
pub open spec fn i32_le_bytes(code: i32) -> Seq<u8> {
    le_bytes(
        if code < 0 {
            (code + 0x1_0000_0000) as nat
        } else {
            code as nat
        },
        4,
    )
}

/// Whether reporting `result` writes the error register: a failure is
/// always written, a success only after a failure.
pub open spec fn register_written(ext_1: bool, result: OutputResult) -> bool {
    result is Err || !ext_1
}

/// The memory pool after `result` was reported.
pub open spec fn reported_pool(pool: Seq<u8>, ext_1: bool, result: OutputResult) -> Seq<u8> {
    if register_written(ext_1, result) {
        overwrite(pool, REG_ERROR as int, i32_le_bytes(error_code(result)))
    } else {
        pool
    }
}

/// The four little-endian bytes of an error code.
fn code_bytes(code: i32) -> (bytes: Vec<u8>)
    ensures
        bytes@ == i32_le_bytes(code),
        bytes@.len() == 4,
{
    let word: u64 = if code < 0 {
        (code as i64 + 0x1_0000_0000) as u64
    } else {
        code as u64
    };
    MemoryPointerLength::X32b.fit(word as usize)
}

/// Report how an output operation went: write its error code to the error
/// register of the memory pool, and remember in `ext_1` whether it succeeded.
///
/// The register is left alone while one success follows another.
pub fn write_io_err_register(
    ctx: &mut ExecutionContext,
    mem_pool: &mut Vec<u8>,
    result: OutputResult,
)
    requires
        register_written(old(ctx).ext_1, result) ==> REG_ERROR + 4 <= old(mem_pool)@.len(),
    ensures
        final(ctx)@ == (ContextState { ext_1: result is Ok, ..old(ctx)@ }),
        final(mem_pool)@ == reported_pool(old(mem_pool)@, old(ctx).ext_1, result),
{
    match result {
        Ok(_) => {
            if !ctx.ext_1 {
                let zero = code_bytes(0);
                write_register(REG_ERROR, zero.as_slice(), mem_pool);
                ctx.ext_1 = true;
            }
        },
        Err(err) => {
            ctx.ext_1 = false;
            let code = match err {
                Some(code) => code,
                None => -1,
            };
            let bytes = code_bytes(code);
            write_register(REG_ERROR, bytes.as_slice(), mem_pool);
        },
    }
}

/// The `ivm_ext_x32` extern map, which writes to `output`.
pub struct IvmX32ExternMap<O: Output> {
    pub output: O,
}

/// Whether `ctx_after`, `vm_after` and `fault` are what reporting the
/// output result `io` leaves of `ctx` and `vm`: the report itself, or a
/// fault and no change where the pool is too short to hold the register.
pub open spec fn reports(
    ctx: ContextState,
    vm: VmState,
    io: OutputResult,
    ctx_after: ContextState,
    vm_after: VmState,
    result: Result<(), VmFault>,
) -> bool {
    if register_written(ctx.ext_1, io) && vm.pool.len() < REG_ERROR + 4 {
        &&& ctx_after == ctx
        &&& vm_after == vm
        &&& result == Err::<(), VmFault>(VmFault::MissingRegister { register: REG_ERROR })
    } else {
        &&& ctx_after == (ContextState { ext_1: io is Ok, ..ctx })
        &&& vm_after == (VmState { pool: reported_pool(vm.pool, ctx.ext_1, io), ..vm })
        &&& result is Ok
    }
}

impl<O: Output> IvmX32ExternMap<O> {
    /// The extern map that writes to `output`.
    pub fn new(output: O) -> (map: IvmX32ExternMap<O>)
        ensures
            map.output == output,
    {
        IvmX32ExternMap { output }
    }

    /// Report `io` in the error register of `vm`, if the register is there.
    fn report(ctx: &mut ExecutionContext, vm: &mut VmInstance, io: OutputResult) -> (result:
        Result<(), VmFault>)
        ensures
            reports(old(ctx)@, old(vm)@, io, final(ctx)@, final(vm)@, result),
    {
        if (io.is_err() || !ctx.ext_1) && vm.mem_pool.len() < REG_ERROR + 4 {
            return Err(VmFault::MissingRegister { register: REG_ERROR });
        }
        write_io_err_register(ctx, &mut vm.mem_pool, io);
        Ok(())
    }
}

impl<O: Output> ExternMap for IvmX32ExternMap<O> {
    open spec fn serves(
        &self,
        ctx: ContextState,
        vm: VmState,
        call_id: usize,
        served: &Self,
        ctx_after: ContextState,
        vm_after: VmState,
        result: Result<(), VmFault>,
    ) -> bool {
        if call_id == EXTC_STDOUT_WRITE {
            if ctx.ext_a.len() == 0 {
                &&& served == self
                &&& ctx_after == ctx
                &&& vm_after == vm
                &&& result == Err::<(), VmFault>(VmFault::NullExtA)
            } else {
                exists|io: OutputResult|
                    {
                        &&& #[trigger] self.output.wrote(ctx.ext_a, &served.output, io)
                        &&& reports(ctx, vm, io, ctx_after, vm_after, result)
                    }
            }
        } else if call_id == EXTC_STDOUT_FLUSH {
            exists|io: OutputResult|
                {
                    &&& #[trigger] self.output.flushed(&served.output, io)
                    &&& reports(ctx, vm, io, ctx_after, vm_after, result)
                }
        } else if call_id == EXTC_JUMP_OVERFLOW {
            &&& served == self
            &&& ctx_after == ctx
            &&& vm_after == (VmState { index: vm.pool.len() as usize, ..vm })
            &&& result is Ok
        } else {
            &&& served == self
            &&& ctx_after == ctx
            &&& vm_after == vm
            &&& result == Err::<(), VmFault>(VmFault::UnrecognizedExtern { call_id })
        }
    }

    fn handle(
        &mut self,
        ctx: &mut ExecutionContext,
        call_id: usize,
        vm: &mut VmInstance,
    ) -> (result: Result<(), VmFault>) {
        if call_id == EXTC_STDOUT_WRITE {
            if ctx.ext_a.len() == 0 {
                return Err(VmFault::NullExtA);
            }
            let io = self.output.write_all(ctx.ext_a_slice());
            let result = Self::report(ctx, vm, io);
            assert(old(self).output.wrote(old(ctx)@.ext_a, &self.output, io));
            result
        } else if call_id == EXTC_STDOUT_FLUSH {
            let io = self.output.flush();
            let result = Self::report(ctx, vm, io);
            assert(old(self).output.flushed(&self.output, io));
            result
        } else if call_id == EXTC_JUMP_OVERFLOW {
            vm.execution_index = vm.mem_pool.len();
            Ok(())
        } else {
            Err(VmFault::UnrecognizedExtern { call_id })
        }
    }
}

impl VmInstance {
    /// Create a new VmInstance whose memory pool holds the registers of
    /// `ivm_ext_x32`, filled with null bytes, and nothing else. Execution
    /// starts behind the registers.
    pub fn reserve_ivm_ext_x32(program_options: ProgramOptions) -> (vm: VmInstance)
        ensures
            vm@ == (VmState {
                options: program_options,
                pool: Seq::new(REGISTER_RESERVED as nat, |i: int| 0u8),
                index: REGISTER_RESERVED,
                stack: Seq::empty(),
                calls: Seq::empty(),
            }),
    {
        let initial_mem_pool: Vec<u8> = vec![0u8; REGISTER_RESERVED];
        assert(initial_mem_pool@ =~= Seq::new(REGISTER_RESERVED as nat, |i: int| 0u8));
        VmInstance::new(program_options, initial_mem_pool, REGISTER_RESERVED)
    }
}

/// Create a machine for `ivm_ext_x32` that holds the given instructions
/// behind the registers, compiled with the default options, and starts at
/// the first of them.
pub fn vm_ivm_ext_x32(instructions: &[Instruction]) -> (vm: VmInstance)
    ensures
        vm@.options.cfv() == CCFV,
        vm@.options.ptr_len() == MemoryPointerLength::X32b,
        vm@.pool == Seq::new(REGISTER_RESERVED as nat, |i: int| 0u8) + bytecode_of_all(
            instructions@,
            &vm@.options,
        ),
        vm@.index == REGISTER_RESERVED,
        vm@.stack == Seq::<Seq<u8>>::empty(),
        vm@.calls == Seq::<usize>::empty(),
{
    let program_options = ProgramOptions::default();
    let bytecode = compile_all(instructions, &program_options);
    let mut vm = VmInstance::reserve_ivm_ext_x32(program_options);
    vm.introduce(bytecode);
    vm
}

/// A run that reaches the extern call `EXTC_JUMP_OVERFLOW` ends there,
/// whatever follows the call in the memory pool: the execution index is at
/// the end of the pool, and nothing else has changed since the call was
/// decoded.
pub proof fn lemma_jump_overflow_ends_run<O: Output>(
    map: IvmX32ExternMap<O>,
    ctx: ContextState,
    vm: VmState,
    budget: nat,
    map_end: IvmX32ExternMap<O>,
    ctx_end: ContextState,
    vm_end: VmState,
    result: Result<Status, VmFault>,
)
    requires
        vm.fits_memory(),
        run_of(vm, ctx, budget).result == Ok::<Status, VmFault>(
            Status::Calling(EXTC_JUMP_OVERFLOW),
        ),
        run_may_end(map, ctx, vm, budget, map_end, ctx_end, vm_end, result),
    ensures
        result == Ok::<Status, VmFault>(Status::Ended),
        map_end == map,
        ctx_end == run_of(vm, ctx, budget).ctx,
        vm_end == (VmState {
            index: run_of(vm, ctx, budget).vm.pool.len() as usize,
            ..run_of(vm, ctx, budget).vm
        }),
{
    let ran = run_of(vm, ctx, budget);
    lemma_run_keeps_pool_len(vm, ctx, budget);
    let (served, ctx_served, vm_served, outcome) = choose|
        served: IvmX32ExternMap<O>,
        ctx_served: ContextState,
        vm_served: VmState,
        outcome: Result<(), VmFault>,
    |
        {
            &&& #[trigger] map.serves(
                ran.ctx,
                ran.vm,
                EXTC_JUMP_OVERFLOW,
                &served,
                ctx_served,
                vm_served,
                outcome,
            )
            &&& match outcome {
                Ok(_) => run_may_end(
                    served,
                    ctx_served,
                    vm_served,
                    ran.left,
                    map_end,
                    ctx_end,
                    vm_end,
                    result,
                ),
                Err(fault) => {
                    &&& map_end == served
                    &&& ctx_end == ctx_served
                    &&& vm_end == vm_served
                    &&& result == Err::<Status, VmFault>(fault)
                },
            }
        };
    lemma_run_past_end(vm_served, ctx_served, ran.left);
}

} // verus!
