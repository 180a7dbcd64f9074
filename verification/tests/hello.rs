use ivm::compile::{compile_all, Instruction, ReadOperation};
use ivm::ivm_ext_x32::{IvmX32ExternMap, OutputBuffer, EXTC_STDOUT_FLUSH, EXTC_STDOUT_WRITE};
use ivm::machine::{Status, VmFault};
use ivm::options::{MemoryPointerLength, ProgramOptions, CCFV};
use ivm::vm::{ExecutionEnvironment, VmInstance};
use std::time::Instant;

fn vm_ivm_ext_x32(instructions: &[Instruction]) -> VmInstance {
    let program_options = ProgramOptions::default();
    let bytecode = compile_all(instructions, &program_options);

    let mut vm = VmInstance::reserve_ivm_ext_x32(program_options);
    vm.introduce(bytecode);
    vm
}

#[test]
fn hello_world() {
    let mut vm = vm_ivm_ext_x32(&[
        Instruction::LoadA(ReadOperation::Local(b"Hello, world!\n".to_vec())),
        Instruction::ExternCall(EXTC_STDOUT_WRITE),
        Instruction::ExternCall(EXTC_STDOUT_FLUSH),
    ]);

    let extern_map = IvmX32ExternMap::new(OutputBuffer::new());
    let mut env = ExecutionEnvironment::new(extern_map);

    assert_eq!(vm.continue_execution(&mut env, u64::MAX), Ok(Status::Ended));
    assert_eq!(env.extern_map.output.written, b"Hello, world!\n".to_vec());
}

#[test]
fn bad_helloworld_benchmark_no_warmup() {
    let program_options = ProgramOptions::new(CCFV, MemoryPointerLength::X32b);
    let bytecode = compile_all(
        &[
            Instruction::Push(ReadOperation::Local(b"Hello, world!\n".to_vec())),
            Instruction::ExternCall(EXTC_STDOUT_WRITE),
            Instruction::ExternCall(EXTC_STDOUT_FLUSH),
        ],
        &program_options,
    );
    let mut vm = VmInstance::reserve_ivm_ext_x32(program_options);
    vm.introduce(bytecode);

    let extern_map = IvmX32ExternMap::new(OutputBuffer::new());
    let mut env = ExecutionEnvironment::new(extern_map);

    let start = Instant::now();
    let result = vm.continue_execution(&mut env, u64::MAX);
    println!("finished in: {:?}", start.elapsed());

    // The write call finds nothing loaded in `ext_a`: pushed bytes are not loaded.
    assert_eq!(result, Err(VmFault::NullExtA));
    assert_eq!(vm.stack, vec![b"Hello, world!\n".to_vec()]);
    assert!(env.extern_map.output.written.is_empty());
}
