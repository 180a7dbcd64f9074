use ivm::byte_id;
use ivm::compile::{compile_all, Compile, Instruction, ReadOperation};
use ivm::options::{MemoryPointerLength, ProgramOptions};
use ivm::vmenv::Label;

fn x32() -> ProgramOptions {
    ProgramOptions::new(1, MemoryPointerLength::X32b)
}

fn x64() -> ProgramOptions {
    ProgramOptions::new(1, MemoryPointerLength::X64b)
}

#[test]
fn byte_identifiers() {
    assert_eq!(byte_id::I_JUMP, 0);
    assert_eq!(byte_id::I_PUSH, 1);
    assert_eq!(byte_id::I_MUTATE, 2);
    assert_eq!(byte_id::I_EXTERN_CALL, 3);
    assert_eq!(byte_id::I_RETURN, 4);
    assert_eq!(byte_id::I_CALL, 5);
    assert_eq!(byte_id::I_LOAD_A, 6);
    assert_eq!(byte_id::RDOP_LOCAL, 0);
    assert_eq!(byte_id::RDOP_POINT, 1);
}

#[test]
fn identifier_byte_of_each_instruction() {
    let rd = ReadOperation::Point(1, 2);
    assert_eq!(Instruction::Jump(0).get_identifier_byte(), 0);
    assert_eq!(Instruction::Push(rd.clone()).get_identifier_byte(), 1);
    assert_eq!(Instruction::Mutate(0, rd.clone()).get_identifier_byte(), 2);
    assert_eq!(Instruction::ExternCall(0).get_identifier_byte(), 3);
    assert_eq!(Instruction::Return.get_identifier_byte(), 4);
    assert_eq!(Instruction::Call(0).get_identifier_byte(), 5);
    assert_eq!(Instruction::LoadA(rd).get_identifier_byte(), 6);
}

#[test]
fn identifier_byte_of_each_read_operation() {
    assert_eq!(ReadOperation::Local(vec![1, 2]).get_identifier_byte(), 0);
    assert_eq!(ReadOperation::Point(1, 2).get_identifier_byte(), 1);
}

#[test]
fn local_is_tag_length_bytes() {
    let rd = ReadOperation::Local(b"ABCD".to_vec());
    assert_eq!(rd.compile(&x32()), vec![0, 4, 0, 0, 0, b'A', b'B', b'C', b'D']);
    assert_eq!(
        rd.compile(&x64()),
        vec![0, 4, 0, 0, 0, 0, 0, 0, 0, b'A', b'B', b'C', b'D']
    );
    assert_eq!(ReadOperation::Local(vec![]).compile(&x32()), vec![0, 0, 0, 0, 0]);
}

#[test]
fn point_is_tag_length_index() {
    let rd = ReadOperation::Point(4, 0x0102);
    assert_eq!(rd.compile(&x32()), vec![1, 4, 0, 0, 0, 2, 1, 0, 0]);
    assert_eq!(rd.compile(&x64()).len(), 17);
}

#[test]
fn instruction_encodings() {
    let o = x32();
    assert_eq!(Instruction::Jump(7).compile(&o), vec![0, 7, 0, 0, 0]);
    assert_eq!(Instruction::ExternCall(2).compile(&o), vec![3, 2, 0, 0, 0]);
    assert_eq!(Instruction::Call(0x100).compile(&o), vec![5, 0, 1, 0, 0]);
    assert_eq!(Instruction::Return.compile(&o), vec![4]);
    assert_eq!(
        Instruction::Push(ReadOperation::Local(b"x".to_vec())).compile(&o),
        vec![1, 0, 1, 0, 0, 0, b'x']
    );
    assert_eq!(
        Instruction::LoadA(ReadOperation::Point(4, 0)).compile(&o),
        vec![6, 1, 4, 0, 0, 0, 0, 0, 0, 0]
    );
    assert_eq!(
        Instruction::Mutate(4, ReadOperation::Local(b"ABCD".to_vec())).compile(&o),
        vec![2, 4, 0, 0, 0, 0, 4, 0, 0, 0, b'A', b'B', b'C', b'D']
    );
}

#[test]
fn compile_into_appends() {
    let mut dest = vec![0xaa];
    Instruction::Return.compile_into(&mut dest, &x32());
    Instruction::Jump(1).compile_into(&mut dest, &x32());
    assert_eq!(dest, vec![0xaa, 4, 0, 1, 0, 0, 0]);
}

#[test]
fn compile_all_concatenates_without_a_header() {
    let o = x32();
    let instructions = [
        Instruction::LoadA(ReadOperation::Local(b"Hi".to_vec())),
        Instruction::ExternCall(0),
        Instruction::Return,
    ];
    let all = compile_all(&instructions, &o);
    let mut expected = Vec::new();
    for instruction in &instructions {
        expected.extend(instruction.compile(&o));
    }
    assert_eq!(all, expected);
    assert_eq!(all, vec![6, 0, 2, 0, 0, 0, b'H', b'i', 3, 0, 0, 0, 0, 4]);
    let none: [Instruction; 0] = [];
    assert!(compile_all(&none, &o).is_empty());
}

#[test]
fn compile_all_takes_anything_that_compiles() {
    let o = x64();
    let all = compile_all(&[ReadOperation::Point(1, 2), ReadOperation::Local(vec![7])], &o);
    assert_eq!(all.len(), 17 + 10);
    assert_eq!(all[0], 1);
    assert_eq!(all[17], 0);
    assert_eq!(all[26], 7);
}

#[test]
fn label_compiles_its_instructions_in_order() {
    let mut label = Label::new(vec![Instruction::Return]);
    label.push(Instruction::Jump(3));
    let mut dest = vec![1u8];
    label.compile(&mut dest, &x32());
    assert_eq!(dest, vec![1, 4, 0, 3, 0, 0, 0]);
    label.clear();
    let mut dest = Vec::new();
    label.compile(&mut dest, &x32());
    assert!(dest.is_empty());
    let mut dest = Vec::new();
    Label::default().compile(&mut dest, &x32());
    assert!(dest.is_empty());
}
