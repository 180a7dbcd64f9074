//! Program options: the compile feature version and the width of encoded pointers.

use crate::pointer::{
    le_bytes, le_value, lemma_le_round_trip, lemma_le_value_bound, lemma_le_value_unfold,
    lemma_radix, lemma_radix_values, radix,
};
use vstd::arithmetic::div_mod::{lemma_div_denominator, lemma_small_mod};
use vstd::prelude::*;
use vstd::string::StringExecFns;

verus! {

/// The current compile feature version.
///
/// It grows whenever the bytecode format changes. The machine reads the
/// formats of earlier versions; it does not promise to read later ones.
pub const CCFV: u32 = 1;

/// The number that a decoded pointer stands for once it is held in a
/// `usize`: digits beyond the machine word are cut off.
pub open spec fn index_of(value: nat) -> usize {
    (value % (usize::MAX as nat + 1)) as usize
}

/// Cut a 64 bit number down to the machine word.
fn word_of(value: u64) -> (index: usize)
    ensures
        index == index_of(value as nat),
{
    if value <= usize::MAX as u64 {
        proof {
            lemma_small_mod(value as nat, usize::MAX as nat + 1);
        }
        value as usize
    } else {
        (value % (usize::MAX as u64 + 1)) as usize
    }
}

/// Read the little-endian number of `span` bytes that starts at `index`.
pub(crate) fn read_le(pool: &[u8], index: usize, span: usize) -> (value: u64)
    requires
        span <= 8,
        index + span <= pool@.len(),
    ensures
        value == le_value(pool@.subrange(index as int, index + span)),
{
    let ghost end = index + span;
    let len = pool.len();
    let mut value: u64 = 0;
    let mut i: usize = span;
    while i > 0
        invariant
            i <= span <= 8,
            end == index + span,
            end <= len == pool@.len(),
            value == le_value(pool@.subrange(index + i, end)),
        decreases i,
    {
        i = i - 1;
        proof {
            let from = index + i;
            lemma_le_value_unfold(pool@, from, end);
            lemma_le_value_bound(pool@.subrange(from + 1, end));
            lemma_radix_values();
            lemma_radix(0);
            let k = (span - i - 1) as nat;
            assert(radix(k) <= 0x100_0000_0000_0000) by {
                assert(k == 0 || k == 1 || k == 2 || k == 3 || k == 4 || k == 5 || k == 6 || k
                    == 7);
            }
        }
        value = value * 256 + pool[index + i] as u64;
    }
    value
}

/// The number of bytes of an encoded pointer.
///
/// A narrower pointer makes smaller programs; a wider one reaches more memory.
#[derive(Clone, Copy, Debug, PartialEq, Eq, Structural)]
pub enum MemoryPointerLength {
    /// 32 bit memory pointers (4 bytes).
    X32b,
    /// 64 bit memory pointers (8 bytes).
    X64b,
}

impl MemoryPointerLength {
    /// The number of bytes of a pointer of this width.
    pub open spec fn span(self) -> nat {
        match self {
            MemoryPointerLength::X32b => 4,
            MemoryPointerLength::X64b => 8,
        }
    }

    /// The byte that names this width in a program header.
    pub open spec fn byte_id(self) -> u8 {
        match self {
            MemoryPointerLength::X32b => 0,
            MemoryPointerLength::X64b => 1,
        }
    }

    /// The width that a header byte names, if it names one.
    pub open spec fn of_byte_id(byte: u8) -> Option<MemoryPointerLength> {
        if byte == 0 {
            Some(MemoryPointerLength::X32b)
        } else if byte == 1 {
            Some(MemoryPointerLength::X64b)
        } else {
            None
        }
    }

    /// The encoding of `index` as a pointer of this width.
    pub open spec fn encode(self, index: usize) -> Seq<u8> {
        le_bytes(index as nat, self.span())
    }

    /// Whether a pointer of this width lies inside `pool` at `index`.
    pub open spec fn in_bounds(self, index: int, pool: Seq<u8>) -> bool {
        0 <= index && index + self.span() <= pool.len()
    }

    /// The pointer of this width that `pool` holds at `index`.
    pub open spec fn decode(self, index: int, pool: Seq<u8>) -> usize {
        index_of(le_value(pool.subrange(index, index + self.span())))
    }

    /// Whether `index` can be written as a pointer of this width without loss.
    pub open spec fn fits(self, index: usize) -> bool {
        index < radix(self.span())
    }

    /// A pointer that fits its width is read back from wherever its
    /// encoding lies in a pool.
    pub proof fn lemma_decode_encoded(self, index: usize, pool: Seq<u8>, at: int)
        requires
            self.fits(index),
            self.in_bounds(at, pool),
            pool.subrange(at, at + self.span()) == self.encode(index),
        ensures
            self.decode(at, pool) == index,
    {
        lemma_le_round_trip(index as nat, self.span());
        lemma_small_mod(index as nat, usize::MAX as nat + 1);
    }

    /// A pointer below 256 to the power of the width's span survives
    /// `fit` and `extract`: `fit` writes as many bytes as the span says,
    /// and `extract` at offset 0 of those bytes gives the pointer back.
    pub proof fn lemma_fit_then_extract(self, index: usize)
        requires
            index < radix(self.span()),
        ensures
            self.encode(index).len() == self.span(),
            self.in_bounds(0, self.encode(index)),
            self.decode(0, self.encode(index)) == index,
    {
        let bytes = self.encode(index);
        assert(bytes.subrange(0, self.span() as int) =~= bytes);
        self.lemma_decode_encoded(index, bytes, 0);
    }

    /// Extract a pointer from the memory pool at the given start index.
    pub fn extract(&self, index: usize, pool: &[u8]) -> (pointer: usize)
        requires
            self.in_bounds(index as int, pool@),
        ensures
            pointer == self.decode(index as int, pool@),
    {
        word_of(read_le(pool, index, self.get_span()))
    }

    /// Convert a byte string of exactly this width to the pointer it encodes.
    pub fn to_usize(&self, input: &[u8]) -> (pointer: usize)
        requires
            input@.len() == self.span(),
        ensures
            pointer == index_of(le_value(input@)),
            pointer == self.decode(0, input@),
    {
        assert(input@.subrange(0, self.span() as int) =~= input@);
        word_of(read_le(input, 0, self.get_span()))
    }

    /// Convert a memory pointer index to its little-endian byte representation.
    ///
    /// An index that needs more bytes than this width has loses its upper bytes.
    pub fn fit(&self, mem_ptr_index: usize) -> (bytes: Vec<u8>)
        ensures
            bytes@ == self.encode(mem_ptr_index),
            bytes@.len() == self.span(),
    {
        let span = self.get_span();
        let mut bytes: Vec<u8> = Vec::with_capacity(span);
        let mut rest: usize = mem_ptr_index;
        let mut i: usize = 0;
        proof {
            lemma_radix(0);
        }
        while i < span
            invariant
                i <= span,
                span == self.span(),
                rest == mem_ptr_index as nat / radix(i as nat),
                bytes@ =~= le_bytes(mem_ptr_index as nat, i as nat),
            decreases span - i,
        {
            bytes.push((rest % 256) as u8);
            proof {
                lemma_radix(i as nat);
                lemma_div_denominator(mem_ptr_index as int, radix(i as nat) as int, 256);
                assert(radix(i as nat) * 256 == radix((i + 1) as nat));
            }
            rest = rest / 256;
            i = i + 1;
        }
        bytes
    }

    /// Get the byte size of this pointer width.
    pub fn get_span(&self) -> (span: usize)
        ensures
            span == self.span(),
            span == 4 || span == 8,
    {
        match self {
            MemoryPointerLength::X32b => 4,
            MemoryPointerLength::X64b => 8,
        }
    }

    /// Get the byte that names this width in a program header.
    pub fn get_byte_identifier(&self) -> (byte: u8)
        ensures
            byte == self.byte_id(),
    {
        match self {
            MemoryPointerLength::X32b => 0,
            MemoryPointerLength::X64b => 1,
        }
    }

    /// Match the pointer width from the given header byte.
    pub fn from_byte_identifier(byte: u8) -> (width: Option<MemoryPointerLength>)
        ensures
            width == Self::of_byte_id(byte),
    {
        match byte {
            0 => Some(MemoryPointerLength::X32b),
            1 => Some(MemoryPointerLength::X64b),
            _ => None,
        }
    }
}

/// The options a program was compiled with: the first part of its header.
#[derive(Clone, Copy, Debug)]
pub struct ProgramOptions {
    cfv: u32,
    ptr_len: MemoryPointerLength,
}

impl ProgramOptions {
    /// The compile feature version that this program was compiled on.
    pub closed spec fn spec_cfv(&self) -> u32 {
        self.cfv
    }

    /// The pointer width that this program uses.
    pub closed spec fn spec_ptr_len(&self) -> &MemoryPointerLength {
        &self.ptr_len
    }

    /// The bytes that stand for these options in a header: the version as
    /// four little-endian bytes, then the byte that names the pointer width.
    pub open spec fn header_bytes(&self) -> Seq<u8> {
        le_bytes(self.cfv() as nat, 4).push(self.ptr_len().byte_id())
    }

    /// Two records with the same version and width are the same record.
    pub proof fn lemma_same_fields(self, other: ProgramOptions)
        requires
            self.cfv() == other.cfv(),
            self.ptr_len() == other.ptr_len(),
        ensures
            self == other,
    {
    }

    /// Get the compile feature version that this program was compiled on.
    #[verifier::when_used_as_spec(spec_cfv)]
    pub fn cfv(&self) -> (cfv: u32)
        ensures
            cfv == self.spec_cfv(),
    {
        self.cfv
    }

    /// Create a new ProgramOptions.
    pub fn new(cfv: u32, ptr_len: MemoryPointerLength) -> (options: ProgramOptions)
        ensures
            options.cfv() == cfv,
            options.ptr_len() == ptr_len,
    {
        ProgramOptions { cfv, ptr_len }
    }

    /// Get the pointer width that this program uses.
    #[verifier::when_used_as_spec(spec_ptr_len)]
    pub fn ptr_len(&self) -> (ptr_len: &MemoryPointerLength)
        ensures
            ptr_len == self.spec_ptr_len(),
    {
        &self.ptr_len
    }
}

impl Default for ProgramOptions {
    /// The current compile feature version with 32 bit pointers.
    fn default() -> (options: ProgramOptions)
        ensures
            options.cfv() == CCFV,
            options.ptr_len() == MemoryPointerLength::X32b,
    {
        ProgramOptions::new(CCFV, MemoryPointerLength::X32b)
    }
}

/// Why a header was refused.
#[derive(Clone, Copy, Debug, PartialEq, Eq, Structural)]
pub enum InvalidHeaderCause {
    /// The input is too short to hold every field of the header.
    FormatNotFulfilled,
    /// A field holds a value that this version does not know: a later
    /// compiler may have written it.
    UnrecognizedValue,
}

/// Where the header format is described.
pub const DOC_HELP: &'static str =
    "see [ivm_compile::options::header_format_doc] for the ivm bytecode format";

/// The hint that goes with an unknown value.
pub const LATER_VERSION_HELP: &'static str =
    "this bytecode input may have been compiled by a later version of ivmc";

impl InvalidHeaderCause {
    /// The hints to show with an error of this cause, most specific first.
    pub open spec fn help(&self) -> Seq<&'static str> {
        match self {
            InvalidHeaderCause::FormatNotFulfilled => seq![DOC_HELP],
            InvalidHeaderCause::UnrecognizedValue => seq![LATER_VERSION_HELP, DOC_HELP],
        }
    }

    /// What this cause reads like in a message.
    pub open spec fn text(&self) -> Seq<char> {
        match self {
            InvalidHeaderCause::FormatNotFulfilled => "the header format was not fulfilled"@,
            InvalidHeaderCause::UnrecognizedValue => "an unrecognized value was encountered"@,
        }
    }

    /// Get the hints to show with an error of this cause.
    pub fn get_help(&self) -> (help: Vec<&'static str>)
        ensures
            help@ == self.help(),
    {
        let mut help: Vec<&'static str> = Vec::new();
        match self {
            InvalidHeaderCause::FormatNotFulfilled => {
                help.push(DOC_HELP);
            },
            InvalidHeaderCause::UnrecognizedValue => {
                help.push(LATER_VERSION_HELP);
                help.push(DOC_HELP);
            },
        }
        assert(help@ =~= self.help());
        help
    }

    /// Render this cause as text.
    pub fn to_string(&self) -> (text: String)
        ensures
            text@ == self.text(),
    {
        match self {
            InvalidHeaderCause::FormatNotFulfilled => String::from_str(
                "the header format was not fulfilled",
            ),
            InvalidHeaderCause::UnrecognizedValue => String::from_str(
                "an unrecognized value was encountered",
            ),
        }
    }
}

/// The error for a bytecode input whose header does not follow the format.
#[derive(Debug)]
pub struct InvalidHeaderError {
    cause: InvalidHeaderCause,
    message: String,
}

impl InvalidHeaderError {
    /// The cause of this error.
    pub closed spec fn spec_cause(&self) -> &InvalidHeaderCause {
        &self.cause
    }

    /// The message of this error.
    pub closed spec fn spec_message(&self) -> &String {
        &self.message
    }

    /// What this error reads like: the cause, a colon, the message.
    pub open spec fn text(&self) -> Seq<char> {
        self.cause().text() + ": "@ + self.message()@
    }

    /// Get the cause of this error.
    #[verifier::when_used_as_spec(spec_cause)]
    pub fn cause(&self) -> (cause: &InvalidHeaderCause)
        ensures
            cause == self.spec_cause(),
    {
        &self.cause
    }

    /// Get the message of this error.
    #[verifier::when_used_as_spec(spec_message)]
    pub fn message(&self) -> (message: &String)
        ensures
            message == self.spec_message(),
    {
        &self.message
    }

    /// Create an error from its cause and an owned message.
    pub fn new(cause: InvalidHeaderCause, message: String) -> (error: InvalidHeaderError)
        ensures
            *error.cause() == cause,
            *error.message() == message,
    {
        InvalidHeaderError { cause, message }
    }

    /// Create an error from its cause and a borrowed message.
    pub fn from(cause: InvalidHeaderCause, message: &str) -> (error: InvalidHeaderError)
        ensures
            *error.cause() == cause,
            error.message()@ == message@,
    {
        InvalidHeaderError::new(cause, String::from_str(message))
    }

    /// Render this error as text.
    pub fn to_string(&self) -> (text: String)
        ensures
            text@ == self.text(),
    {
        let text = self.cause.to_string();
        let text = text.concat(": ");
        text.concat(self.message.as_str())
    }
}

} // verus!
