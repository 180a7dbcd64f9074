use ivm::compile::{Instruction, ReadOperation};
use ivm::ivm_ext_x32::{
    vm_ivm_ext_x32, write_io_err_register, write_register, IvmX32ExternMap, Output, OutputBuffer,
    OutputResult, EXTC_JUMP_OVERFLOW, EXTC_STDOUT_FLUSH, EXTC_STDOUT_WRITE, REGISTER_RESERVED,
    REG_ERROR,
};
use ivm::machine::{Status, VmFault};
use ivm::options::{MemoryPointerLength, ProgramOptions};
use ivm::vm::{EmptyExternMap, ExecutionContext, ExecutionEnvironment, ExternMap, VmInstance};

/// An output that answers each operation with the next of the results it was given.
struct Scripted {
    results: Vec<OutputResult>,
    next: usize,
    seen: Vec<Vec<u8>>,
}

impl Scripted {
    fn new(results: Vec<OutputResult>) -> Self {
        Scripted { results, next: 0, seen: Vec::new() }
    }

    fn answer(&mut self) -> OutputResult {
        let result = self.results[self.next];
        self.next += 1;
        result
    }
}

impl Output for Scripted {
    fn write_all(&mut self, data: &[u8]) -> OutputResult {
        self.seen.push(data.to_vec());
        self.answer()
    }

    fn flush(&mut self) -> OutputResult {
        self.answer()
    }
}

#[test]
fn constants_of_the_table() {
    assert_eq!(EXTC_STDOUT_WRITE, 0);
    assert_eq!(EXTC_STDOUT_FLUSH, 1);
    assert_eq!(EXTC_JUMP_OVERFLOW, 2);
    assert_eq!(REG_ERROR, 0);
    assert_eq!(REGISTER_RESERVED, 4);
}

#[test]
fn reserve_starts_behind_the_registers() {
    let vm = VmInstance::reserve_ivm_ext_x32(ProgramOptions::default());
    assert_eq!(vm.mem_pool, vec![0u8; 4]);
    assert_eq!(vm.execution_index, 4);
    assert!(vm.stack.is_empty());
    assert!(vm.call_stack.is_empty());
}

#[test]
fn write_register_copies_at_the_offset() {
    let mut pool = vec![1u8, 2, 3, 4, 5, 6];
    write_register(2, &[9, 8, 7], &mut pool);
    assert_eq!(pool, vec![1, 2, 9, 8, 7, 6]);
    write_register(0, &[], &mut pool);
    assert_eq!(pool, vec![1, 2, 9, 8, 7, 6]);
}

#[test]
fn success_after_success_leaves_the_register_alone() {
    let mut ctx = ExecutionContext::new();
    let mut pool = vec![7u8, 7, 7, 7, 7];
    write_io_err_register(&mut ctx, &mut pool, Ok(()));
    assert_eq!(pool, vec![7u8, 7, 7, 7, 7]);
    assert!(ctx.ext_1);
}

#[test]
fn failure_writes_the_os_code() {
    let mut ctx = ExecutionContext::new();
    let mut pool = vec![7u8, 7, 7, 7, 7];
    write_io_err_register(&mut ctx, &mut pool, Err(Some(32)));
    assert_eq!(pool, vec![32u8, 0, 0, 0, 7]);
    assert!(!ctx.ext_1);
    write_io_err_register(&mut ctx, &mut pool, Err(Some(0x0102_0304)));
    assert_eq!(pool, vec![4u8, 3, 2, 1, 7]);
    assert!(!ctx.ext_1);
}

#[test]
fn failure_without_a_code_writes_minus_one() {
    let mut ctx = ExecutionContext::new();
    let mut pool = vec![0u8; 4];
    write_io_err_register(&mut ctx, &mut pool, Err(None));
    assert_eq!(pool, (-1i32).to_le_bytes().to_vec());
    assert!(!ctx.ext_1);
}

#[test]
fn negative_codes_are_written_in_twos_complement() {
    let mut ctx = ExecutionContext::new();
    let mut pool = vec![0u8; 4];
    write_io_err_register(&mut ctx, &mut pool, Err(Some(-2)));
    assert_eq!(pool, vec![0xfe, 0xff, 0xff, 0xff]);
    write_io_err_register(&mut ctx, &mut pool, Err(Some(i32::MIN)));
    assert_eq!(pool, i32::MIN.to_le_bytes().to_vec());
    write_io_err_register(&mut ctx, &mut pool, Err(Some(i32::MAX)));
    assert_eq!(pool, i32::MAX.to_le_bytes().to_vec());
}

#[test]
fn first_success_after_a_failure_clears_the_register() {
    let mut ctx = ExecutionContext::new();
    let mut pool = vec![0u8; 4];
    write_io_err_register(&mut ctx, &mut pool, Err(Some(5)));
    assert_eq!(pool, vec![5u8, 0, 0, 0]);
    write_io_err_register(&mut ctx, &mut pool, Ok(()));
    assert_eq!(pool, vec![0u8, 0, 0, 0]);
    assert!(ctx.ext_1);
}

#[test]
fn failed_write_is_reported_and_the_run_goes_on() {
    let mut vm = vm_ivm_ext_x32(&[
        Instruction::LoadA(ReadOperation::Local(b"abc".to_vec())),
        Instruction::ExternCall(EXTC_STDOUT_WRITE),
        Instruction::Push(ReadOperation::Point(4, 0)),
        Instruction::ExternCall(EXTC_STDOUT_FLUSH),
        Instruction::Push(ReadOperation::Point(4, 0)),
    ]);
    let output = Scripted::new(vec![Err(Some(28)), Ok(())]);
    let mut env = ExecutionEnvironment::new(IvmX32ExternMap::new(output));
    assert_eq!(vm.continue_execution(&mut env, 100), Ok(Status::Ended));
    assert_eq!(env.extern_map.output.seen, vec![b"abc".to_vec()]);
    // The program saw the code of the failed write, then the zero of the flush.
    assert_eq!(vm.stack, vec![vec![28u8, 0, 0, 0], vec![0u8, 0, 0, 0]]);
    assert!(env.ctx.ext_1);
}

#[test]
fn write_with_nothing_loaded_is_a_fault() {
    let mut vm = vm_ivm_ext_x32(&[Instruction::ExternCall(EXTC_STDOUT_WRITE)]);
    let mut env = ExecutionEnvironment::new(IvmX32ExternMap::new(OutputBuffer::new()));
    assert_eq!(vm.continue_execution(&mut env, 100), Err(VmFault::NullExtA));
    assert!(env.extern_map.output.written.is_empty());
}

#[test]
fn unknown_call_id_is_a_fault() {
    let mut vm = vm_ivm_ext_x32(&[Instruction::ExternCall(3)]);
    let mut env = ExecutionEnvironment::new(IvmX32ExternMap::new(OutputBuffer::new()));
    assert_eq!(
        vm.continue_execution(&mut env, 100),
        Err(VmFault::UnrecognizedExtern { call_id: 3 })
    );
}

#[test]
fn missing_register_is_a_fault_when_it_must_be_written() {
    let options = ProgramOptions::new(1, MemoryPointerLength::X32b);
    let mut vm = VmInstance::new(options, vec![0u8, 0], 2);
    let mut map = IvmX32ExternMap::new(Scripted::new(vec![Ok(()), Err(None)]));
    let mut ctx = ExecutionContext::new();
    // A success after a success writes nothing: the short pool does no harm.
    assert_eq!(map.handle(&mut ctx, EXTC_STDOUT_FLUSH, &mut vm), Ok(()));
    assert_eq!(
        map.handle(&mut ctx, EXTC_STDOUT_FLUSH, &mut vm),
        Err(VmFault::MissingRegister { register: 0 })
    );
    assert_eq!(vm.mem_pool, vec![0u8, 0]);
    assert!(ctx.ext_1);
}

#[test]
fn jump_overflow_sets_the_index_to_the_end() {
    let options = ProgramOptions::new(1, MemoryPointerLength::X32b);
    let mut vm = VmInstance::new(options, vec![0u8; 10], 3);
    vm.call_stack.push(7);
    let mut map = IvmX32ExternMap::new(OutputBuffer::new());
    let mut ctx = ExecutionContext::new();
    assert_eq!(map.handle(&mut ctx, EXTC_JUMP_OVERFLOW, &mut vm), Ok(()));
    assert_eq!(vm.execution_index, 10);
    assert_eq!(vm.call_stack, vec![7]);
    // A machine past the end does nothing more.
    let mut env = ExecutionEnvironment::new(map);
    assert_eq!(vm.continue_execution(&mut env, 100), Ok(Status::Ended));
    assert_eq!(vm.execution_index, 10);
}

#[test]
fn empty_extern_map_refuses_every_call() {
    let mut vm = vm_ivm_ext_x32(&[Instruction::ExternCall(0)]);
    let mut env = ExecutionEnvironment::new(EmptyExternMap);
    assert_eq!(
        vm.continue_execution(&mut env, 100),
        Err(VmFault::EmptyExternMap { call_id: 0 })
    );
}

#[test]
fn output_buffer_keeps_what_is_written() {
    let mut output = OutputBuffer::new();
    assert_eq!(output.write_all(b"ab"), Ok(()));
    assert_eq!(output.write_all(b"c"), Ok(()));
    assert_eq!(output.flush(), Ok(()));
    assert_eq!(output.written, b"abc".to_vec());
    assert_eq!(output.flushes, 1);
}

#[test]
fn vm_ivm_ext_x32_holds_the_bytecode_behind_the_registers() {
    let vm = vm_ivm_ext_x32(&[Instruction::Return, Instruction::Jump(4)]);
    assert_eq!(vm.mem_pool, vec![0, 0, 0, 0, 4, 0, 4, 0, 0, 0]);
    assert_eq!(vm.execution_index, 4);
    assert_eq!(vm.options.cfv(), 1);
    assert_eq!(*vm.options.ptr_len(), MemoryPointerLength::X32b);
}
