use ivm::cli::CliAction;
use ivm::compile::{Instruction, ReadOperation};
use ivm::debug::SourceLocation;
use ivm::fmt::{format_bytecode, format_instruction};
use ivm::token::{PrimitiveType, Token, TokenKind};

#[test]
fn source_location_keeps_its_fields() {
    let location = SourceLocation::new(3, 5, 9);
    assert_eq!(location.get_ln(), 3);
    assert_eq!(location.get_col_start(), 5);
    assert_eq!(location.get_col_end(), 9);
}

#[test]
fn empty_bytes_of_each_primitive_type() {
    assert_eq!(PrimitiveType::_16b.as_empty_bytes(), vec![0, 0]);
    assert_eq!(PrimitiveType::_32b.as_empty_bytes(), vec![0, 0, 0, 0]);
}

#[test]
fn keywords_and_identifiers() {
    assert!(matches!(TokenKind::from_identifier("ret".to_string()), TokenKind::Return));
    assert!(matches!(TokenKind::from_identifier("emp".to_string()), TokenKind::Emp));
    assert!(matches!(TokenKind::from_identifier("extern".to_string()), TokenKind::Extern));
    match TokenKind::from_identifier("retx".to_string()) {
        TokenKind::Identifier(name) => assert_eq!(name, "retx"),
        other => panic!("{:?}", other),
    }
    match TokenKind::from_identifier(String::new()) {
        TokenKind::Identifier(name) => assert_eq!(name, ""),
        other => panic!("{:?}", other),
    }
    match TokenKind::from_identifier("Ret".to_string()) {
        TokenKind::Identifier(name) => assert_eq!(name, "Ret"),
        other => panic!("{:?}", other),
    }
}

#[test]
fn token_keeps_its_kind() {
    let token = Token::new(TokenKind::Emp, SourceLocation::new(1, 2, 3));
    assert!(matches!(token.get_kind(), TokenKind::Emp));
    let token = Token::new(
        TokenKind::PrimitiveType(PrimitiveType::_16b),
        SourceLocation::new(1, 2, 3),
    );
    assert!(matches!(token.get_kind(), TokenKind::PrimitiveType(PrimitiveType::_16b)));
}

#[test]
fn actions_and_exit_codes() {
    assert_eq!(CliAction::parse("usage"), CliAction::Usage);
    assert_eq!(CliAction::parse("version"), CliAction::Version);
    assert_eq!(CliAction::parse("help"), CliAction::Help);
    assert_eq!(CliAction::parse("compile"), CliAction::Compile);
    assert_eq!(CliAction::parse("--compile"), CliAction::Compile);
    assert_eq!(CliAction::parse("run"), CliAction::Unknown);
    assert_eq!(CliAction::parse(""), CliAction::Unknown);
    assert_eq!(CliAction::Usage.exit_code(), 0);
    assert_eq!(CliAction::Version.exit_code(), 0);
    assert_eq!(CliAction::Help.exit_code(), 0);
    assert_eq!(CliAction::Compile.exit_code(), 1);
    assert_eq!(CliAction::Unknown.exit_code(), 1);
}

#[test]
fn return_is_its_name_alone() {
    assert_eq!(format_instruction(&Instruction::Return), "\x1b[1m\x1b[34mreturn\x1b[0m");
}

#[test]
fn pointers_are_written_in_decimal() {
    assert_eq!(
        format_instruction(&Instruction::Jump(0)),
        "\x1b[1m\x1b[92mjump\x1b[0m \x1b[91m\x1b[1m0\x1b[0m"
    );
    assert_eq!(
        format_instruction(&Instruction::Call(1205)),
        "\x1b[1m\x1b[36mcall\x1b[0m \x1b[91m\x1b[1m1205\x1b[0m"
    );
    assert_eq!(
        format_instruction(&Instruction::ExternCall(usize::MAX)),
        format!("\x1b[1m\x1b[95mextern_call\x1b[0m \x1b[91m\x1b[1m{}\x1b[0m", usize::MAX)
    );
}

#[test]
fn local_bytes_are_written_in_hexadecimal() {
    assert_eq!(
        format_instruction(&Instruction::Push(ReadOperation::Local(vec![0, 0x0a, 0xff]))),
        "\x1b[1m\x1b[91mpush\x1b[0m <\x1b[92mlocal\x1b[0m> \
         (\x1b[94m00\x1b[0m, \x1b[94m0a\x1b[0m, \x1b[94mff\x1b[0m)\x1b[0m"
    );
    assert_eq!(
        format_instruction(&Instruction::LoadA(ReadOperation::Local(vec![]))),
        "\x1b[1m\x1b[33mload %a%\x1b[0m <\x1b[92mlocal\x1b[0m> ()\x1b[0m"
    );
    assert_eq!(
        format_instruction(&Instruction::Push(ReadOperation::Local(vec![0x7f]))),
        "\x1b[1m\x1b[91mpush\x1b[0m <\x1b[92mlocal\x1b[0m> (\x1b[94m7f\x1b[0m)\x1b[0m"
    );
}

#[test]
fn points_show_size_and_index() {
    assert_eq!(
        format_instruction(&Instruction::Push(ReadOperation::Point(4, 10))),
        "\x1b[1m\x1b[91mpush\x1b[0m <\x1b[95mpoint\x1b[0m> (size: 4, index: 10)\x1b[0m"
    );
}

#[test]
fn mutate_shows_where_the_bytes_go() {
    assert_eq!(
        format_instruction(&Instruction::Mutate(99, ReadOperation::Point(1, 2))),
        "\x1b[1m\x1b[93mmutate\x1b[0m \x1b[91m\x1b[1m99 -> \
         <\x1b[95mpoint\x1b[0m> (size: 1, index: 2)\x1b[0m"
    );
}

#[test]
fn bytecode_line_shows_each_byte_in_hexadecimal() {
    assert_eq!(format_bytecode(&[]), "\x1b[30m| bytecode: \x1b[0m");
    assert_eq!(format_bytecode(&[4]), "\x1b[30m| bytecode: 04\x1b[0m");
    assert_eq!(
        format_bytecode(&[0, 0x1f, 0xa0, 255]),
        "\x1b[30m| bytecode: 00 1f a0 ff\x1b[0m"
    );
}
