//! The header of ivm bytecode. This module holds documentation only.
//!
//! Every number is written in little-endian byte order.
//!
//! # Compile feature version 1
//!
//! The header has 13 bytes:
//!
//! ```txt
//! [0..4)   CompileFeatureVersion   u32
//! [4]      MemoryPointerLength     0 for 32 bit pointers, 1 for 64 bit pointers
//! [5..13)  the execution index at which the program starts   u64
//! ```
//!
//! The instructions follow the header. Each is one byte that identifies
//! it, then its operands: pointers of the width that the header names, and
//! read operations. A read operation is one byte that identifies it, the
//! number of bytes as a pointer, and then either the bytes themselves or
//! their index in the memory pool as a pointer.
