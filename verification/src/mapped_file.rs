//! Files that are mapped into memory.
use memmap2::Mmap;
use std::ops::Deref;
use vstd::prelude::*;

verus! {

/// Declares the read-only memory map of `memmap2`.
#[verifier::external_type_specification]
#[verifier::external_body]
pub struct ExMmap(memmap2::Mmap);

/// The bytes that a memory map holds.
///
/// Whoever makes a map of a file promises that the file does not change while the
/// map exists, so the bytes belong to the map.
pub uninterp spec fn mmap_bytes(mmap: Mmap) -> Seq<u8>;

/// Calls `<memmap2::Mmap as Deref>::deref`: the whole contents of the map, as a slice.
#[verifier::external_body]
pub(crate) fn mmap_slice(mmap: &Mmap) -> (bytes: &[u8])
    ensures
        bytes@ == mmap_bytes(*mmap),
{
    mmap.deref()
}

} // verus!
