//! Instructions as coloured text for a terminal.

use crate::compile::{Instruction, InstructionView, ReadOperation, ReadOperationView};
use vstd::prelude::*;
use vstd::string::StringExecFns;

verus! {

/// The text of one digit below sixteen.
pub open spec fn digit_text(digit: nat) -> Seq<char> {
    if digit == 0 {
        "0"@
    } else if digit == 1 {
        "1"@
    } else if digit == 2 {
        "2"@
    } else if digit == 3 {
        "3"@
    } else if digit == 4 {
        "4"@
    } else if digit == 5 {
        "5"@
    } else if digit == 6 {
        "6"@
    } else if digit == 7 {
        "7"@
    } else if digit == 8 {
        "8"@
    } else if digit == 9 {
        "9"@
    } else if digit == 10 {
        "a"@
    } else if digit == 11 {
        "b"@
    } else if digit == 12 {
        "c"@
    } else if digit == 13 {
        "d"@
    } else if digit == 14 {
        "e"@
    } else {
        "f"@
    }
}

/// A number in decimal digits, without leading zeros.
pub open spec fn decimal_text(n: nat) -> Seq<char>
    decreases n,
{
    if n < 10 {
        digit_text(n)
    } else {
        decimal_text(n / 10) + digit_text(n % 10)
    }
}

/// A byte as two hexadecimal digits in lower case.
pub open spec fn hex_text(byte: u8) -> Seq<char> {
    digit_text(byte as nat / 16) + digit_text(byte as nat % 16)
}

/// A byte in blue.
pub open spec fn byte_text(byte: u8) -> Seq<char> {
    "\x1b[94m"@ + hex_text(byte) + "\x1b[0m"@
}

/// Bytes in blue, with a comma and a blank between one and the next.
pub open spec fn bytes_text(bytes: Seq<u8>) -> Seq<char>
    decreases bytes.len(),
{
    if bytes.len() == 0 {
        Seq::empty()
    } else if bytes.len() == 1 {
        byte_text(bytes[0])
    } else {
        bytes_text(bytes.drop_last()) + ", "@ + byte_text(bytes.last())
    }
}

/// Bytes as hexadecimal digits, with a blank between one byte and the next.
pub open spec fn raw_text(bytes: Seq<u8>) -> Seq<char>
    decreases bytes.len(),
{
    if bytes.len() == 0 {
        Seq::empty()
    } else if bytes.len() == 1 {
        hex_text(bytes[0])
    } else {
        raw_text(bytes.drop_last()) + " "@ + hex_text(bytes.last())
    }
}

/// The line that shows bytecode below an instruction, in black.
pub open spec fn bytecode_text(bytecode: Seq<u8>) -> Seq<char> {
    "\x1b[30m| bytecode: "@ + raw_text(bytecode) + "\x1b[0m"@
}

/// A pointer in bold red.
pub open spec fn pointer_text(pointer: usize) -> Seq<char> {
    "\x1b[91m\x1b[1m"@ + decimal_text(pointer as nat)
}

/// A read operation: its kind in colour, then its operands in brackets.
pub open spec fn read_operation_text(rd: ReadOperationView) -> Seq<char> {
    match rd {
        ReadOperationView::Local(bytes) => "<\x1b[92mlocal\x1b[0m> ("@ + bytes_text(bytes) + ")"@,
        ReadOperationView::Point(size, index) => "<\x1b[95mpoint\x1b[0m> (size: "@ + decimal_text(
            size as nat,
        ) + ", index: "@ + decimal_text(index as nat) + ")"@,
    }
}

/// The name of an instruction with its colour.
pub open spec fn coloured_name(instruction: InstructionView) -> Seq<char> {
    match instruction {
        InstructionView::Push(_) => "\x1b[91mpush"@,
        InstructionView::Jump(_) => "\x1b[92mjump"@,
        InstructionView::Mutate(_, _) => "\x1b[93mmutate"@,
        InstructionView::Return => "\x1b[34mreturn"@,
        InstructionView::ExternCall(_) => "\x1b[95mextern_call"@,
        InstructionView::Call(_) => "\x1b[36mcall"@,
        InstructionView::LoadA(_) => "\x1b[33mload %a%"@,
    }
}

/// The name of an instruction in bold and in its colour.
pub open spec fn prefix_text(instruction: InstructionView) -> Seq<char> {
    "\x1b[1m"@ + coloured_name(instruction) + "\x1b[0m"@
}

/// The operands of an instruction. A return has none.
pub open spec fn value_text(instruction: InstructionView) -> Seq<char> {
    match instruction {
        InstructionView::Push(rd) | InstructionView::LoadA(rd) => read_operation_text(rd),
        InstructionView::ExternCall(pointer) | InstructionView::Jump(pointer)
        | InstructionView::Call(pointer) => pointer_text(pointer),
        InstructionView::Mutate(pointer, rd) => pointer_text(pointer) + " -> "@
            + read_operation_text(rd),
        InstructionView::Return => Seq::empty(),
    }
}

/// An instruction: its name, and behind a blank its operands if it has any.
pub open spec fn instruction_text(instruction: InstructionView) -> Seq<char> {
    match instruction {
        InstructionView::Return => prefix_text(instruction),
        _ => prefix_text(instruction) + " "@ + value_text(instruction) + "\x1b[0m"@,
    }
}

/// The text of one digit below sixteen.
fn digit(value: usize) -> (text: &'static str)
    requires
        value < 16,
    ensures
        text@ == digit_text(value as nat),
{
    if value == 0 {
        "0"
    } else if value == 1 {
        "1"
    } else if value == 2 {
        "2"
    } else if value == 3 {
        "3"
    } else if value == 4 {
        "4"
    } else if value == 5 {
        "5"
    } else if value == 6 {
        "6"
    } else if value == 7 {
        "7"
    } else if value == 8 {
        "8"
    } else if value == 9 {
        "9"
    } else if value == 10 {
        "a"
    } else if value == 11 {
        "b"
    } else if value == 12 {
        "c"
    } else if value == 13 {
        "d"
    } else if value == 14 {
        "e"
    } else {
        "f"
    }
}

/// Append `n` in decimal digits.
fn append_decimal(text: &mut String, n: usize)
    ensures
        final(text)@ == old(text)@ + decimal_text(n as nat),
    decreases n,
{
    if n >= 10 {
        append_decimal(text, n / 10);
    }
    text.append(digit(n % 10));
    assert(text@ =~= old(text)@ + decimal_text(n as nat));
}

/// Append a byte in blue.
fn append_byte(text: &mut String, byte: u8)
    ensures
        final(text)@ == old(text)@ + byte_text(byte),
{
    text.append("\x1b[94m");
    text.append(digit((byte / 16) as usize));
    text.append(digit((byte % 16) as usize));
    text.append("\x1b[0m");
    assert(text@ =~= old(text)@ + byte_text(byte));
}

/// Append a read operation.
fn append_read_op(text: &mut String, read_op: &ReadOperation)
    ensures
        final(text)@ == old(text)@ + read_operation_text(read_op@),
{
    match read_op {
        ReadOperation::Local(bytes) => {
            text.append("<\x1b[92mlocal\x1b[0m> (");
            let ghost start = text@;
            let mut i: usize = 0;
            while i < bytes.len()
                invariant
                    i <= bytes@.len(),
                    text@ == start + bytes_text(bytes@.take(i as int)),
                decreases bytes@.len() - i,
            {
                if i > 0 {
                    text.append(", ");
                }
                append_byte(text, bytes[i]);
                proof {
                    assert(bytes@.take(i + 1).drop_last() =~= bytes@.take(i as int));
                    assert(text@ =~= start + bytes_text(bytes@.take(i + 1)));
                }
                i = i + 1;
            }
            assert(bytes@.take(i as int) =~= bytes@);
            text.append(")");
            assert(text@ =~= old(text)@ + read_operation_text(read_op@));
        },
        ReadOperation::Point(size, index) => {
            text.append("<\x1b[95mpoint\x1b[0m> (size: ");
            append_decimal(text, *size);
            text.append(", index: ");
            append_decimal(text, *index);
            text.append(")");
            assert(text@ =~= old(text)@ + read_operation_text(read_op@));
        },
    }
}

/// Append a pointer in bold red.
fn append_ptr(text: &mut String, ptr: usize)
    ensures
        final(text)@ == old(text)@ + pointer_text(ptr),
{
    text.append("\x1b[91m\x1b[1m");
    append_decimal(text, ptr);
    assert(text@ =~= old(text)@ + pointer_text(ptr));
}

/// Format a read operation.
fn format_read_op(read_op: &ReadOperation) -> (text: String)
    ensures
        text@ == read_operation_text(read_op@),
{
    let mut text = String::new();
    append_read_op(&mut text, read_op);
    assert(text@ =~= read_operation_text(read_op@));
    text
}

/// Format a pointer.
fn fmt_ptr(ptr: usize) -> (text: String)
    ensures
        text@ == pointer_text(ptr),
{
    let mut text = String::new();
    append_ptr(&mut text, ptr);
    assert(text@ =~= pointer_text(ptr));
    text
}

/// The name of the instruction in bold and in its colour.
fn get_instruction_prefix(instruction: &Instruction) -> (text: String)
    ensures
        text@ == prefix_text(instruction@),
{
    let mut text = String::from_str("\x1b[1m");
    text.append(
        match instruction {
            Instruction::Push(_) => "\x1b[91mpush",
            Instruction::Jump(_) => "\x1b[92mjump",
            Instruction::Mutate(_, _) => "\x1b[93mmutate",
            Instruction::Return => "\x1b[34mreturn",
            Instruction::ExternCall(_) => "\x1b[95mextern_call",
            Instruction::Call(_) => "\x1b[36mcall",
            Instruction::LoadA(_) => "\x1b[33mload %a%",
        },
    );
    text.append("\x1b[0m");
    text
}

/// The operands of an instruction that has some.
fn display_value(instruction: &Instruction) -> (text: String)
    requires
        !(instruction is Return),
    ensures
        text@ == value_text(instruction@),
{
    match instruction {
        Instruction::Push(rd) | Instruction::LoadA(rd) => format_read_op(rd),
        Instruction::ExternCall(ptr) | Instruction::Jump(ptr) | Instruction::Call(ptr) => fmt_ptr(
            *ptr,
        ),
        Instruction::Mutate(ptr, rd) => {
            let mut text = fmt_ptr(*ptr);
            text.append(" -> ");
            append_read_op(&mut text, rd);
            text
        },
        Instruction::Return => String::new(),
    }
}

/// Format the given instruction.
pub fn format_instruction(instruction: &Instruction) -> (text: String)
    ensures
        text@ == instruction_text(instruction@),
{
    let name = get_instruction_prefix(instruction);
    match instruction {
        Instruction::Return => name,
        _ => {
            let mut text = name;
            text.append(" ");
            text.append(display_value(instruction).as_str());
            text.append("\x1b[0m");
            text
        },
    }
}

/// Format the line that shows the given bytecode below its instruction.
pub fn format_bytecode(bytecode: &[u8]) -> (text: String)
    ensures
        text@ == bytecode_text(bytecode@),
{
    let mut text = String::from_str("\x1b[30m| bytecode: ");
    let ghost start = text@;
    let mut i: usize = 0;
    while i < bytecode.len()
        invariant
            i <= bytecode@.len(),
            text@ == start + raw_text(bytecode@.take(i as int)),
        decreases bytecode@.len() - i,
    {
        if i > 0 {
            text.append(" ");
        }
        text.append(digit((bytecode[i] / 16) as usize));
        text.append(digit((bytecode[i] % 16) as usize));
        proof {
            assert(bytecode@.take(i + 1).drop_last() =~= bytecode@.take(i as int));
            assert(text@ =~= start + raw_text(bytecode@.take(i + 1)));
        }
        i = i + 1;
    }
    assert(bytecode@.take(i as int) =~= bytecode@);
    text.append("\x1b[0m");
    text
}

} // verus!
