//! NUL-terminated wide strings inside a region of memory.
//!
//! A region is a run of bytes together with the address of its first byte. A
//! pointer into the region names a string: the 16-bit little-endian units from
//! the pointed-to byte up to, and not including, the first unit that is zero.
//! Nothing outside the region is ever read, so a pointer that leads out of it,
//! or a string whose terminator is missing, names nothing.

use crate::utf16::{decode_lossy, decode_utf16_lossy};
use vstd::prelude::*;

verus! {

/// The 16-bit unit stored little-endian in the two bytes at offset `at`.
pub open spec fn unit_at(bytes: Seq<u8>, at: int) -> u16 {
    (bytes[at] as int + 256 * (bytes[at + 1] as int)) as u16
}

/// The `k`-th unit of the wide string that begins at offset `start`.
pub open spec fn wide_unit(bytes: Seq<u8>, start: int, k: int) -> u16 {
    unit_at(bytes, start + 2 * k)
}

/// A string of exactly `len` units begins at offset `start`: its units and the
/// terminator lie inside `bytes`, the terminator is zero and no unit before it
/// is.
pub open spec fn terminated_after(bytes: Seq<u8>, start: int, len: int) -> bool {
    &&& 0 <= start
    &&& 0 <= len
    &&& start + 2 * len + 2 <= bytes.len()
    &&& wide_unit(bytes, start, len) == 0
    &&& forall|k: int| 0 <= k < len ==> #[trigger] wide_unit(bytes, start, k) != 0
}

/// A terminated wide string begins at offset `start` of `bytes`.
pub open spec fn has_wide_string(bytes: Seq<u8>, start: int) -> bool {
    exists|len: int| terminated_after(bytes, start, len)
}

/// The units of the wide string at offset `start`, without the terminator, or
/// nothing when no terminated string begins there.
pub open spec fn wide_string_at(bytes: Seq<u8>, start: int) -> Option<Seq<u16>> {
    if has_wide_string(bytes, start) {
        let len = choose|len: int| terminated_after(bytes, start, len);
        Some(Seq::new(len as nat, |k: int| wide_unit(bytes, start, k)))
    } else {
        None
    }
}

/// The pointer `ptr` leads to a terminated wide string inside the region that
/// holds `memory` at address `base`.
pub open spec fn points_to_string(memory: Seq<u8>, base: u64, ptr: u64) -> bool {
    ptr != 0 && base <= ptr && has_wide_string(memory, ptr - base)
}

/// The text that `ptr` names in the region that holds `memory` at address
/// `base`: nothing for a null pointer and for one that leads to no string in
/// the region, otherwise the lossy decoding of the string's units.
pub open spec fn name_at(memory: Seq<u8>, base: u64, ptr: u64) -> Option<Seq<char>> {
    if points_to_string(memory, base, ptr) {
        Some(decode_lossy(wide_string_at(memory, ptr - base).unwrap()))
    } else {
        None
    }
}

/// A string has one length only.
pub proof fn lemma_terminator_is_unique(bytes: Seq<u8>, start: int, a: int, b: int)
    requires
        terminated_after(bytes, start, a),
        terminated_after(bytes, start, b),
    ensures
        a == b,
{
}

fn read_unit(bytes: &[u8], at: usize) -> (unit: u16)
    requires
        at + 2 <= bytes.len(),
    ensures
        unit == unit_at(bytes@, at as int),
{
    let low: u16 = bytes[at] as u16;
    let high: u16 = bytes[at + 1] as u16;
    low + 256 * high
}

/// Reads the wide string that begins at offset `start` of `bytes`.
pub fn read_wide_string(bytes: &[u8], start: usize) -> (units: Option<Vec<u16>>)
    ensures
        match units {
            Some(units) => wide_string_at(bytes@, start as int) == Some(units@),
            None => !has_wide_string(bytes@, start as int),
        },
{
    let mut units: Vec<u16> = Vec::new();
    let mut at: usize = start;
    while at <= bytes.len() && bytes.len() - at >= 2
        invariant
            at == start + 2 * units.len(),
            forall|k: int| 0 <= k < units.len() ==> #[trigger] wide_unit(bytes@, start as int, k) != 0,
            forall|k: int|
                0 <= k < units.len() ==> units[k] == #[trigger] wide_unit(bytes@, start as int, k),
        decreases bytes.len() - at,
    {
        let unit: u16 = read_unit(bytes, at);
        if unit == 0 {
            proof {
                let len = units.len() as int;
                assert(terminated_after(bytes@, start as int, len));
                let chosen = choose|len: int| terminated_after(bytes@, start as int, len);
                lemma_terminator_is_unique(bytes@, start as int, chosen, len);
            }
            return Some(units);
        }
        units.push(unit);
        at += 2;
    }
    assert(!has_wide_string(bytes@, start as int));
    None
}

/// The name that the pointer `ptr` leads to, read from the region that holds
/// `memory` at address `base`.
///
/// A null pointer names nothing. Neither does a pointer that leads out of the
/// region or to a string that runs into the region's end without a terminator.
pub fn wide_ptr_to_string(memory: &[u8], base: u64, ptr: u64) -> (name: Option<String>)
    ensures
        name is Some <==> points_to_string(memory@, base, ptr),
        match name {
            Some(text) => name_at(memory@, base, ptr) == Some(text@),
            None => name_at(memory@, base, ptr) is None,
        },
{
    if ptr == 0 || ptr < base {
        return None;
    }
    let offset: u64 = ptr - base;
    if offset >= memory.len() as u64 {
        return None;
    }
    match read_wide_string(memory, offset as usize) {
        Some(units) => Some(decode_utf16_lossy(units.as_slice())),
        None => None,
    }
}

} // verus!
