//! Adapters that read the program header of each compile feature version.
//!
//! The module `header_format_doc` describes the header.

use crate::options::{
    read_le, InvalidHeaderCause, InvalidHeaderError, MemoryPointerLength, ProgramOptions, CCFV,
};
use crate::pointer::{
    le_bytes, le_value, lemma_le_round_trip, lemma_le_value_bound, lemma_radix_values,
};
use vstd::prelude::*;

verus! {

/// The header length of the current compile feature version.
pub const CCFV_HEADER_LEN: usize = CFV1_HEADER_LEN;

/// The header length of compile feature version 1.
pub const CFV1_HEADER_LEN: usize = 13;

/// What a header says: how long it is, where execution starts, and the
/// options of the program.
#[derive(Debug)]
pub struct Adapt {
    pub header_len: usize,
    pub function_start: u64,
    pub options: ProgramOptions,
}

impl Adapt {
    /// Whether this is what a version 1 header at the start of `bytes` says.
    pub open spec fn reads_cfv1(&self, bytes: Seq<u8>) -> bool {
        &&& self.header_len == CFV1_HEADER_LEN
        &&& self.function_start == le_value(bytes.subrange(5, 13))
        &&& self.options.cfv() == le_value(bytes.subrange(0, 4))
        &&& Some(*self.options.ptr_len()) == MemoryPointerLength::of_byte_id(bytes[4])
    }

    pub fn new(header_len: usize, function_start: u64, options: ProgramOptions) -> (adapt: Adapt)
        ensures
            adapt.header_len == header_len,
            adapt.function_start == function_start,
            adapt.options == options,
    {
        Adapt { header_len, function_start, options }
    }
}

/// What a header adapter returns.
pub type AdapterResult = Result<Adapt, InvalidHeaderError>;

/// Why the start of `bytes` is no version 1 header, if it is none: too
/// short comes before an unknown pointer width.
pub open spec fn cfv1_fault(bytes: Seq<u8>) -> Option<InvalidHeaderCause> {
    if bytes.len() < CFV1_HEADER_LEN {
        Some(InvalidHeaderCause::FormatNotFulfilled)
    } else if MemoryPointerLength::of_byte_id(bytes[4]) is None {
        Some(InvalidHeaderCause::UnrecognizedValue)
    } else {
        None
    }
}

/// The message that goes with each cause of a refused version 1 header.
pub open spec fn cfv1_message(cause: InvalidHeaderCause) -> Seq<char> {
    match cause {
        InvalidHeaderCause::FormatNotFulfilled => "header input too short"@,
        InvalidHeaderCause::UnrecognizedValue => "unrecognized memory pointer length"@,
    }
}

/// Whether `result` is the answer to reading a version 1 header from `bytes`.
pub open spec fn answers_cfv1(result: AdapterResult, bytes: Seq<u8>) -> bool {
    match result {
        Ok(adapt) => cfv1_fault(bytes) is None && adapt.reads_cfv1(bytes),
        Err(error) => cfv1_fault(bytes) == Some(*error.cause()) && error.message()@
            == cfv1_message(*error.cause()),
    }
}

/// Get the header size of the given compile feature version, if the
/// version is known.
pub fn get_header_size(cfv: u32) -> (size: Option<usize>)
    ensures
        size == if cfv == CCFV {
            Some(CCFV_HEADER_LEN)
        } else {
            None
        },
{
    if cfv == CCFV {
        Some(CCFV_HEADER_LEN)
    } else {
        None
    }
}

/// Try to read a header in the format of compile feature version 1.
///
/// The version field is read and kept, whatever it holds.
pub fn try_retrieve_cfv1(bytes: &[u8]) -> (result: AdapterResult)
    ensures
        answers_cfv1(result, bytes@),
{
    if bytes.len() < CFV1_HEADER_LEN {
        return Err(
            InvalidHeaderError::from(
                InvalidHeaderCause::FormatNotFulfilled,
                "header input too short",
            ),
        );
    }
    let cfv = read_le(bytes, 0, 4);
    proof {
        lemma_le_value_bound(bytes@.subrange(0, 4));
        lemma_radix_values();
    }
    let mem_ptr_len = match MemoryPointerLength::from_byte_identifier(bytes[4]) {
        Some(mpl) => mpl,
        None => {
            return Err(
                InvalidHeaderError::from(
                    InvalidHeaderCause::UnrecognizedValue,
                    "unrecognized memory pointer length",
                ),
            );
        },
    };
    let execution_start = read_le(bytes, 5, 8);
    Ok(Adapt::new(CFV1_HEADER_LEN, execution_start, ProgramOptions::new(cfv as u32, mem_ptr_len)))
}

/// Read the header of a program, whatever known version wrote it.
///
/// Headers of earlier versions stay readable; those of later versions may not be.
pub fn get_program_options(bytes: &[u8]) -> (result: AdapterResult)
    ensures
        answers_cfv1(result, bytes@),
{
    try_retrieve_cfv1(bytes)
}

/// The bytes of a complete version 1 header: the options, then the
/// execution index to start at.
pub open spec fn cfv1_header(options: ProgramOptions, function_start: u64) -> Seq<u8> {
    options.header_bytes() + le_bytes(function_start as nat, 8)
}

/// Reading a header that was written from `options` and `function_start`
/// gives both back, with the header length 13, whatever follows the header.
pub proof fn lemma_header_round_trip(
    options: ProgramOptions,
    function_start: u64,
    body: Seq<u8>,
    result: AdapterResult,
)
    requires
        answers_cfv1(result, cfv1_header(options, function_start) + body),
    ensures
        result is Ok,
        result->Ok_0.options == options,
        result->Ok_0.function_start == function_start,
        result->Ok_0.header_len == 13,
{
    let bytes = cfv1_header(options, function_start) + body;
    let cfv = options.cfv();
    lemma_radix_values();
    lemma_le_round_trip(cfv as nat, 4);
    lemma_le_round_trip(function_start as nat, 8);
    assert(bytes.subrange(0, 4) =~= le_bytes(cfv as nat, 4));
    assert(bytes.subrange(5, 13) =~= le_bytes(function_start as nat, 8));
    assert(bytes[4] == options.ptr_len().byte_id());
    assert(cfv1_fault(bytes) is None);
    result->Ok_0.options.lemma_same_fields(options);
}

} // verus!
