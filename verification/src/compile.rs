//! Instructions, read operations, and their encoding as bytecode.

use crate::byte_id;
use crate::options::{MemoryPointerLength, ProgramOptions};
use vstd::prelude::*;

verus! {

/// Append `bytes` to `dest`.
pub(crate) fn append_bytes(dest: &mut Vec<u8>, bytes: &[u8])
    ensures
        final(dest)@ == old(dest)@ + bytes@,
{
    dest.extend_from_slice(bytes);
    assert(dest@ =~= old(dest)@ + bytes@);
}

/// Something that can be written as ivm bytecode.
pub trait Compile {
    /// The bytecode of this value under the given options.
    spec fn bytecode(&self, program_options: &ProgramOptions) -> Seq<u8>;

    /// Compile this value to ivm bytecode and append it to `dest`.
    fn compile_into(&self, dest: &mut Vec<u8>, program_options: &ProgramOptions)
        ensures
            final(dest)@ == old(dest)@ + self.bytecode(program_options),
    ;

    /// Compile this value to ivm bytecode.
    fn compile(&self, program_options: &ProgramOptions) -> (dest: Vec<u8>)
        ensures
            dest@ == self.bytecode(program_options),
    {
        let mut dest = Vec::new();
        self.compile_into(&mut dest, program_options);
        assert(dest@ =~= self.bytecode(program_options));
        dest
    }
}

/// Where an instruction takes a value from.
#[derive(Clone, Debug, PartialEq, Eq)]
pub enum ReadOperation {
    /// The bytes follow the operation in the bytecode, after their length.
    Local(Vec<u8>),
    /// The bytes lie in the memory pool: first how many, then where.
    Point(usize, usize),
}

/// A read operation as a mathematical value.
pub enum ReadOperationView {
    /// The bytes themselves.
    Local(Seq<u8>),
    /// The length and the index of the bytes in the memory pool.
    Point(usize, usize),
}

impl View for ReadOperation {
    type V = ReadOperationView;

    open spec fn view(&self) -> ReadOperationView {
        match self {
            ReadOperation::Local(bytes) => ReadOperationView::Local(bytes@),
            ReadOperation::Point(len, index) => ReadOperationView::Point(*len, *index),
        }
    }
}

impl ReadOperationView {
    /// The byte that identifies this kind of read operation.
    pub open spec fn identifier(self) -> u8 {
        match self {
            ReadOperationView::Local(_) => byte_id::RDOP_LOCAL,
            ReadOperationView::Point(_, _) => byte_id::RDOP_POINT,
        }
    }

    /// The encoding: the identifier, the length as a pointer, then the
    /// bytes themselves or the index as a pointer.
    pub open spec fn encoding(self, width: MemoryPointerLength) -> Seq<u8> {
        match self {
            ReadOperationView::Local(bytes) => seq![byte_id::RDOP_LOCAL] + width.encode(
                bytes.len() as usize,
            ) + bytes,
            ReadOperationView::Point(len, index) => seq![byte_id::RDOP_POINT] + width.encode(len)
                + width.encode(index),
        }
    }

    /// Whether every operand can be written in the given width without loss.
    pub open spec fn fits(self, width: MemoryPointerLength) -> bool {
        match self {
            ReadOperationView::Local(bytes) => bytes.len() <= usize::MAX && width.fits(
                bytes.len() as usize,
            ),
            ReadOperationView::Point(len, index) => width.fits(len) && width.fits(index),
        }
    }
}

impl ReadOperation {
    /// Get the byte the VM will use to identify this kind of read operation.
    pub fn get_identifier_byte(&self) -> (byte: u8)
        ensures
            byte == self@.identifier(),
    {
        match self {
            ReadOperation::Local(_) => byte_id::RDOP_LOCAL,
            ReadOperation::Point(_, _) => byte_id::RDOP_POINT,
        }
    }
}

impl Compile for ReadOperation {
    open spec fn bytecode(&self, program_options: &ProgramOptions) -> Seq<u8> {
        self@.encoding(*program_options.ptr_len())
    }

    fn compile_into(&self, dest: &mut Vec<u8>, program_options: &ProgramOptions) {
        let ptr_len = program_options.ptr_len();
        dest.push(self.get_identifier_byte());
        match self {
            ReadOperation::Local(bytes) => {
                let len = ptr_len.fit(bytes.len());
                append_bytes(dest, len.as_slice());
                append_bytes(dest, bytes.as_slice());
            },
            ReadOperation::Point(len, index) => {
                let len = ptr_len.fit(*len);
                let index = ptr_len.fit(*index);
                append_bytes(dest, len.as_slice());
                append_bytes(dest, index.as_slice());
            },
        }
        assert(dest@ =~= old(dest)@ + self.bytecode(program_options));
    }
}

/// A bytecode instruction.
#[derive(Clone, Debug, PartialEq, Eq)]
pub enum Instruction {
    /// Set the execution index, without remembering the current one.
    Jump(usize),
    /// Push bytes to the stack.
    Push(ReadOperation),
    /// Overwrite the memory pool at a location with the bytes read.
    Mutate(usize, ReadOperation),
    /// Remember the execution index on the call stack, then set it.
    Call(usize),
    /// Call an external function by its id.
    ExternCall(usize),
    /// Continue at the index on top of the call stack; halt if it is empty.
    Return,
    /// Read bytes and load them into the `ext_a` register.
    LoadA(ReadOperation),
}

/// An instruction as a mathematical value.
pub enum InstructionView {
    Jump(usize),
    Push(ReadOperationView),
    Mutate(usize, ReadOperationView),
    Call(usize),
    ExternCall(usize),
    Return,
    LoadA(ReadOperationView),
}

impl View for Instruction {
    type V = InstructionView;

    open spec fn view(&self) -> InstructionView {
        match self {
            Instruction::Jump(target) => InstructionView::Jump(*target),
            Instruction::Push(rd) => InstructionView::Push(rd@),
            Instruction::Mutate(dest, rd) => InstructionView::Mutate(*dest, rd@),
            Instruction::Call(target) => InstructionView::Call(*target),
            Instruction::ExternCall(id) => InstructionView::ExternCall(*id),
            Instruction::Return => InstructionView::Return,
            Instruction::LoadA(rd) => InstructionView::LoadA(rd@),
        }
    }
}

impl InstructionView {
    /// The byte that identifies this instruction.
    pub open spec fn identifier(self) -> u8 {
        match self {
            InstructionView::Jump(_) => byte_id::I_JUMP,
            InstructionView::Push(_) => byte_id::I_PUSH,
            InstructionView::Mutate(_, _) => byte_id::I_MUTATE,
            InstructionView::ExternCall(_) => byte_id::I_EXTERN_CALL,
            InstructionView::Return => byte_id::I_RETURN,
            InstructionView::Call(_) => byte_id::I_CALL,
            InstructionView::LoadA(_) => byte_id::I_LOAD_A,
        }
    }

    /// The operands as they follow the identifier byte.
    pub open spec fn operands(self, width: MemoryPointerLength) -> Seq<u8> {
        match self {
            InstructionView::Jump(target) => width.encode(target),
            InstructionView::Push(rd) => rd.encoding(width),
            InstructionView::Mutate(dest, rd) => width.encode(dest) + rd.encoding(width),
            InstructionView::ExternCall(id) => width.encode(id),
            InstructionView::Return => Seq::empty(),
            InstructionView::Call(target) => width.encode(target),
            InstructionView::LoadA(rd) => rd.encoding(width),
        }
    }

    /// The encoding: the identifier byte, then the operands.
    pub open spec fn encoding(self, width: MemoryPointerLength) -> Seq<u8> {
        seq![self.identifier()] + self.operands(width)
    }

    /// Whether every operand can be written in the given width without loss.
    pub open spec fn fits(self, width: MemoryPointerLength) -> bool {
        match self {
            InstructionView::Jump(target) => width.fits(target),
            InstructionView::Push(rd) => rd.fits(width),
            InstructionView::Mutate(dest, rd) => width.fits(dest) && rd.fits(width),
            InstructionView::ExternCall(id) => width.fits(id),
            InstructionView::Return => true,
            InstructionView::Call(target) => width.fits(target),
            InstructionView::LoadA(rd) => rd.fits(width),
        }
    }
}

impl Instruction {
    /// Get the bytecode identifier of this instruction.
    pub fn get_identifier_byte(&self) -> (byte: u8)
        ensures
            byte == self@.identifier(),
    {
        match self {
            Instruction::Jump(_) => byte_id::I_JUMP,
            Instruction::Push(_) => byte_id::I_PUSH,
            Instruction::Mutate(_, _) => byte_id::I_MUTATE,
            Instruction::ExternCall(_) => byte_id::I_EXTERN_CALL,
            Instruction::Return => byte_id::I_RETURN,
            Instruction::Call(_) => byte_id::I_CALL,
            Instruction::LoadA(_) => byte_id::I_LOAD_A,
        }
    }
}

impl Compile for Instruction {
    open spec fn bytecode(&self, program_options: &ProgramOptions) -> Seq<u8> {
        self@.encoding(*program_options.ptr_len())
    }

    fn compile_into(&self, dest: &mut Vec<u8>, program_options: &ProgramOptions) {
        dest.push(self.get_identifier_byte());
        let ghost start = dest@;
        match self {
            Instruction::ExternCall(ptr) | Instruction::Call(ptr) | Instruction::Jump(ptr) => {
                let ptr = program_options.ptr_len().fit(*ptr);
                append_bytes(dest, ptr.as_slice());
            },
            Instruction::Push(rd) | Instruction::LoadA(rd) => {
                rd.compile_into(dest, program_options);
            },
            Instruction::Mutate(ptr_dest, value) => {
                let ptr_dest = program_options.ptr_len().fit(*ptr_dest);
                append_bytes(dest, ptr_dest.as_slice());
                value.compile_into(dest, program_options);
            },
            Instruction::Return => {},
        }
        assert(dest@ =~= start + self@.operands(*program_options.ptr_len()));
        assert(dest@ =~= old(dest)@ + self.bytecode(program_options));
    }
}

impl Compile for ProgramOptions {
    /// The options' own version and width are written; the options passed
    /// in play no part.
    open spec fn bytecode(&self, program_options: &ProgramOptions) -> Seq<u8> {
        self.header_bytes()
    }

    fn compile_into(&self, dest: &mut Vec<u8>, _program_options: &ProgramOptions) {
        let cfv = MemoryPointerLength::X32b.fit(self.cfv() as usize);
        append_bytes(dest, cfv.as_slice());
        dest.push(self.ptr_len().get_byte_identifier());
        assert(dest@ =~= old(dest)@ + self.header_bytes());
    }
}

/// The bytecode of a sequence of values: one after the other.
pub open spec fn bytecode_of_all<C: Compile>(items: Seq<C>, options: &ProgramOptions) -> Seq<u8>
    decreases items.len(),
{
    if items.len() == 0 {
        Seq::empty()
    } else {
        bytecode_of_all(items.drop_last(), options) + items.last().bytecode(options)
    }
}

/// In the bytecode of a sequence, the bytecode of each item stands behind
/// the bytecode of the items before it.
pub proof fn lemma_bytecode_holds_each<C: Compile>(
    items: Seq<C>,
    options: &ProgramOptions,
    k: int,
)
    requires
        0 <= k < items.len(),
    ensures
        bytecode_of_all(items.take(k), options).len() + items[k].bytecode(options).len()
            <= bytecode_of_all(items, options).len(),
        bytecode_of_all(items, options).subrange(
            bytecode_of_all(items.take(k), options).len() as int,
            (bytecode_of_all(items.take(k), options).len() + items[k].bytecode(options).len())
                as int,
        ) == items[k].bytecode(options),
    decreases items.len(),
{
    let before = items.drop_last();
    let all = bytecode_of_all(items, options);
    let at = bytecode_of_all(items.take(k), options).len() as int;
    let len = items[k].bytecode(options).len() as int;
    if k == items.len() - 1 {
        assert(items.take(k) =~= before);
        assert(all.subrange(at, at + len) =~= items[k].bytecode(options));
    } else {
        lemma_bytecode_holds_each(before, options, k);
        assert(before.take(k) =~= items.take(k));
        assert(before[k] == items[k]);
        assert(all.subrange(at, at + len) =~= bytecode_of_all(before, options).subrange(
            at,
            at + len,
        ));
    }
}

/// Compile every item, in order, into one run of bytecode. No header is written.
pub fn compile_all<C: Compile>(items: &[C], options: &ProgramOptions) -> (res: Vec<u8>)
    ensures
        res@ == bytecode_of_all(items@, options),
{
    let mut res: Vec<u8> = Vec::new();
    let mut i: usize = 0;
    while i < items.len()
        invariant
            i <= items@.len(),
            res@ == bytecode_of_all(items@.take(i as int), options),
        decreases items@.len() - i,
    {
        items[i].compile_into(&mut res, options);
        proof {
            assert(items@.take(i + 1).drop_last() =~= items@.take(i as int));
        }
        i = i + 1;
    }
    assert(items@.take(i as int) =~= items@);
    res
}

} // verus!
