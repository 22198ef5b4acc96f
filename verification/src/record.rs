//! The layout of the records that an enumeration at the name level returns.
//!
//! Each record is three fields in declaration order: a pointer to the printer's
//! name, a pointer to the server's name and a 32-bit attribute word, padded to
//! the pointer's alignment. The records stand one after another from the first
//! byte of the buffer; all integers are little-endian.

use vstd::prelude::*;

verus! {

/// The size of a pointer in the process that made the enumeration.
#[derive(Clone, Copy, PartialEq, Eq, Debug)]
pub enum PointerWidth {
    /// Four-byte pointers; a record takes 12 bytes.
    Bits32,
    /// Eight-byte pointers; a record takes 24 bytes.
    Bits64,
}

impl PointerWidth {
    /// The number of bytes in a pointer.
    pub open spec fn pointer_size(self) -> int {
        match self {
            PointerWidth::Bits32 => 4,
            PointerWidth::Bits64 => 8,
        }
    }

    /// The number of bytes from one record to the next.
    pub open spec fn record_size(self) -> int {
        match self {
            PointerWidth::Bits32 => 12,
            PointerWidth::Bits64 => 24,
        }
    }

    /// The width of the pointers of the running process.
    pub fn native() -> (width: PointerWidth)
        ensures
            width == if usize::BITS == 64 {
                PointerWidth::Bits64
            } else {
                PointerWidth::Bits32
            },
    {
        if usize::BITS == 64 {
            PointerWidth::Bits64
        } else {
            PointerWidth::Bits32
        }
    }

    /// The number of bytes from one record to the next.
    pub fn stride(self) -> (size: u64)
        ensures
            size == self.record_size(),
    {
        match self {
            PointerWidth::Bits32 => 12,
            PointerWidth::Bits64 => 24,
        }
    }
}

/// The value of the four bytes at offset `at`, read little-endian.
pub open spec fn le_u32(bytes: Seq<u8>, at: int) -> int {
    bytes[at] as int + 0x100 * (bytes[at + 1] as int) + 0x1_0000 * (bytes[at + 2] as int)
        + 0x100_0000 * (bytes[at + 3] as int)
}

/// The value of the eight bytes at offset `at`, read little-endian.
pub open spec fn le_u64(bytes: Seq<u8>, at: int) -> int {
    le_u32(bytes, at) + 0x1_0000_0000 * le_u32(bytes, at + 4)
}

/// The pointer stored at offset `at`.
pub open spec fn pointer_at(bytes: Seq<u8>, at: int, width: PointerWidth) -> u64 {
    match width {
        PointerWidth::Bits32 => le_u32(bytes, at) as u64,
        PointerWidth::Bits64 => le_u64(bytes, at) as u64,
    }
}

/// The name pointer of the record with the given index. It is the record's
/// first field.
pub open spec fn name_pointer(bytes: Seq<u8>, index: int, width: PointerWidth) -> u64 {
    pointer_at(bytes, index * width.record_size(), width)
}

/// `count` whole records fit into `len` bytes.
pub open spec fn records_fit(len: int, count: int, width: PointerWidth) -> bool {
    count * width.record_size() <= len
}

fn read_u32_le(bytes: &[u8], at: usize) -> (value: u32)
    requires
        at + 4 <= bytes.len(),
    ensures
        value == le_u32(bytes@, at as int),
{
    let b0: u32 = bytes[at] as u32;
    let b1: u32 = bytes[at + 1] as u32;
    let b2: u32 = bytes[at + 2] as u32;
    let b3: u32 = bytes[at + 3] as u32;
    b0 + 0x100 * b1 + 0x1_0000 * b2 + 0x100_0000 * b3
}

fn read_pointer(bytes: &[u8], at: usize, width: PointerWidth) -> (ptr: u64)
    requires
        at + width.pointer_size() <= bytes.len(),
    ensures
        ptr == pointer_at(bytes@, at as int, width),
{
    let low: u64 = read_u32_le(bytes, at) as u64;
    match width {
        PointerWidth::Bits32 => low,
        PointerWidth::Bits64 => {
            let high: u64 = read_u32_le(bytes, at + 4) as u64;
            low + 0x1_0000_0000 * high
        },
    }
}

/// Reads the name pointer of the record with the given index, or nothing when
/// `bytes` is too short to hold that many records.
pub fn read_name_pointer(bytes: &[u8], index: u32, width: PointerWidth) -> (ptr: Option<u64>)
    ensures
        ptr == if records_fit(bytes@.len() as int, index + 1, width) {
            Some(name_pointer(bytes@, index as int, width))
        } else {
            None
        },
{
    let size: u64 = width.stride();
    let end: u64 = (index as u64 + 1) * size;
    if end > bytes.len() as u64 {
        return None;
    }
    let at: usize = (end - size) as usize;
    Some(read_pointer(bytes, at, width))
}

} // verus!
