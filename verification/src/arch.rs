//! Address-sandboxing validator: bounds and alignment checks used as a
//! pre-flight test before any sandboxed memory access, plus the data
//! sanitization mask applied to values the validator admitted.

use vstd::prelude::*;

verus! {

/// Size of the sandboxed memory region, in bytes.
pub const SANDBOX_MEMORY_LIMIT: usize = 1048576;

/// Required alignment for sandboxed accesses, in bytes.
pub const ALIGNMENT_REQUIREMENT: usize = 64;

/// Mask keeping the low 48 bits of a sandboxed data word.
pub const DATA_SANITIZE_MASK: u64 = 0x0000_FFFF_FFFF_FFFF;

/// True exactly when the access `[addr, addr + size)` stays within the
/// sandbox limit; the end address is computed without wraparound, so an
/// overflowing `addr + size` is rejected rather than silently accepted.
pub fn check_address_bounds(addr: usize, size: usize) -> (r: bool)
    ensures
        r <==> addr + size <= SANDBOX_MEMORY_LIMIT,
{
    match addr.checked_add(size) {
        Some(end_addr) => end_addr <= SANDBOX_MEMORY_LIMIT,
        None => false,
    }
}

/// True exactly when `addr` is a multiple of the required alignment.
pub fn validate_alignment(addr: usize) -> (r: bool)
    ensures
        r <==> addr % ALIGNMENT_REQUIREMENT == 0,
{
    addr % ALIGNMENT_REQUIREMENT == 0
}

/// Clears the high 16 bits of a data word, keeping the canonical low 48.
pub fn sanitize_data(data: u64) -> (r: u64)
    ensures
        r == data & DATA_SANITIZE_MASK,
{
    data & DATA_SANITIZE_MASK
}

/// Gates a sandboxed access: rejects out-of-bounds or misaligned addresses
/// with a descriptive error, and otherwise returns the sanitized data word.
pub fn data_sandboxing(addr: usize, size: usize, data: u64) -> (r: Result<u64, &'static str>)
    ensures
        addr + size > SANDBOX_MEMORY_LIMIT ==> r == Result::<u64, &'static str>::Err(
            "Memory access out of sandbox bounds",
        ),
        addr + size <= SANDBOX_MEMORY_LIMIT && addr % ALIGNMENT_REQUIREMENT != 0 ==> r
            == Result::<u64, &'static str>::Err("Memory address not properly aligned"),
        addr + size <= SANDBOX_MEMORY_LIMIT && addr % ALIGNMENT_REQUIREMENT == 0 ==> r
            == Result::<u64, &'static str>::Ok(data & DATA_SANITIZE_MASK),
{
    if !check_address_bounds(addr, size) {
        return Err("Memory access out of sandbox bounds");
    }

    if !validate_alignment(addr) {
        return Err("Memory address not properly aligned");
    }

    let sanitized_data = sanitize_data(data);

    Ok(sanitized_data)
}

} // verus!
