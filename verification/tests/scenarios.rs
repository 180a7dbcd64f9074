use ivm::compile::{compile_all, Compile, Instruction, ReadOperation};
use ivm::ivm_ext_x32::{
    IvmX32ExternMap, OutputBuffer, EXTC_JUMP_OVERFLOW, EXTC_STDOUT_FLUSH, EXTC_STDOUT_WRITE,
};
use ivm::machine::{Status, VmFault};
use ivm::options::{MemoryPointerLength, ProgramOptions, CCFV};
use ivm::security::{GuardedExternMap, IllegalOperationHandleMethod};
use ivm::version_adapters::get_program_options;
use ivm::vm::{ExecutionEnvironment, VmInstance};

fn vm_with(instructions: &[Instruction]) -> VmInstance {
    let program_options = ProgramOptions::new(CCFV, MemoryPointerLength::X32b);
    let bytecode = compile_all(instructions, &program_options);
    let mut vm = VmInstance::reserve_ivm_ext_x32(program_options);
    vm.introduce(bytecode);
    vm
}

#[test]
fn hello_world_load_a_path() {
    let mut vm = vm_with(&[
        Instruction::LoadA(ReadOperation::Local(b"Hello, world!\n".to_vec())),
        Instruction::ExternCall(EXTC_STDOUT_WRITE),
        Instruction::ExternCall(EXTC_STDOUT_FLUSH),
    ]);
    let mut env = ExecutionEnvironment::new(IvmX32ExternMap::new(OutputBuffer::new()));
    let result = vm.continue_execution(&mut env, 1000);
    assert_eq!(result, Ok(Status::Ended));
    assert_eq!(env.extern_map.output.written, b"Hello, world!\n".to_vec());
    assert_eq!(env.extern_map.output.flushes, 1);
    assert_eq!(&vm.mem_pool[0..4], &[0u8, 0, 0, 0]);
    assert!(env.ctx.ext_1);
}

#[test]
fn mutate_then_point() {
    let options = ProgramOptions::new(1, MemoryPointerLength::X32b);
    // Sixteen null bytes at offset 4, then the instructions.
    let mut vm = VmInstance::reserve_ivm_ext_x32(options);
    vm.introduce(vec![0u8; 16]);
    vm.introduce(compile_all(
        &[
            Instruction::Mutate(4, ReadOperation::Local(b"ABCD".to_vec())),
            Instruction::Push(ReadOperation::Point(4, 4)),
        ],
        &options,
    ));
    vm.execution_index = 20;
    let mut env = ExecutionEnvironment::new(IvmX32ExternMap::new(OutputBuffer::new()));
    assert_eq!(vm.continue_execution(&mut env, 1000), Ok(Status::Ended));
    assert_eq!(&vm.mem_pool[4..8], b"ABCD");
    assert_eq!(vm.stack.last(), Some(&b"ABCD".to_vec()));
    assert_eq!(vm.stack.len(), 1);
}

#[test]
fn call_and_return() {
    let options = ProgramOptions::new(1, MemoryPointerLength::X32b);
    // The body at position 4; the entry behind it.
    let body = compile_all(
        &[Instruction::Push(ReadOperation::Local(b"x".to_vec())), Instruction::Return],
        &options,
    );
    let entry_at = 4 + body.len();
    let entry = compile_all(
        &[Instruction::Call(4), Instruction::Push(ReadOperation::Local(b"y".to_vec()))],
        &options,
    );
    let mut vm = VmInstance::reserve_ivm_ext_x32(options);
    vm.introduce(body);
    vm.introduce(entry);
    vm.execution_index = entry_at;
    let mut env = ExecutionEnvironment::new(IvmX32ExternMap::new(OutputBuffer::new()));
    assert_eq!(vm.continue_execution(&mut env, 1000), Ok(Status::Ended));
    assert_eq!(vm.stack, vec![b"x".to_vec(), b"y".to_vec()]);
    assert!(vm.call_stack.is_empty());
    assert_eq!(vm.execution_index, vm.mem_pool.len());
}

#[test]
fn jump_overflow_ends_the_run() {
    let mut vm = vm_with(&[
        Instruction::ExternCall(EXTC_JUMP_OVERFLOW),
        Instruction::Push(ReadOperation::Local(b"unreachable".to_vec())),
    ]);
    let mut env = ExecutionEnvironment::new(IvmX32ExternMap::new(OutputBuffer::new()));
    assert_eq!(vm.continue_execution(&mut env, 1000), Ok(Status::Ended));
    assert!(vm.stack.is_empty());
    assert_eq!(vm.execution_index, vm.mem_pool.len());
}

#[test]
fn header_round_trip() {
    let options = ProgramOptions::new(1, MemoryPointerLength::X64b);
    let mut header = options.compile(&options);
    header.extend_from_slice(&42u64.to_le_bytes());
    assert_eq!(header.len(), 13);
    let adapt = match get_program_options(&header) {
        Ok(adapt) => adapt,
        Err(error) => panic!("{}", error.to_string()),
    };
    assert_eq!(adapt.header_len, 13);
    assert_eq!(adapt.function_start, 42);
    assert_eq!(adapt.options.cfv(), 1);
    assert_eq!(*adapt.options.ptr_len(), MemoryPointerLength::X64b);
}

#[test]
fn guarded_denial_with_panic_policy() {
    let mut vm = vm_with(&[Instruction::ExternCall(EXTC_STDOUT_WRITE)]);
    let guarded = GuardedExternMap::new(
        IvmX32ExternMap::new(OutputBuffer::new()),
        vec![0],
        false,
        IllegalOperationHandleMethod::Panic,
    );
    let mut env = ExecutionEnvironment::new(guarded);
    let result = vm.continue_execution(&mut env, 1000);
    assert_eq!(
        result,
        Err(VmFault::IllegalExternCall { call_id: 0, execution_index: 9 })
    );
}
