//! The bytes of the sections that unwinding reads, wherever they are kept.
use crate::mapped_file::{mmap_bytes, mmap_slice};
use memmap2::Mmap;
use std::ops::Deref;
use vstd::prelude::*;

verus! {

/// A piece of the memory of the profiled task.
pub struct VmSubData {
    bytes: Vec<u8>,
}

impl View for VmSubData {
    type V = Seq<u8>;

    closed spec fn view(&self) -> Seq<u8> {
        self.bytes@
    }
}

impl VmSubData {
    /// Takes over bytes that were read from the task's memory.
    pub fn new(bytes: Vec<u8>) -> (data: Self)
        ensures
            data@ == bytes@,
    {
        VmSubData { bytes }
    }
}

impl Deref for VmSubData {
    type Target = [u8];

    fn deref(&self) -> (bytes: &[u8])
        ensures
            bytes@ == self@,
    {
        self.bytes.as_slice()
    }
}

/// A part of a file that is mapped into memory.
pub struct MmapSubData {
    mmap: Mmap,
    offset: usize,
    len: usize,
}

impl MmapSubData {
    #[verifier::type_invariant]
    spec fn in_bounds(self) -> bool {
        self.offset + self.len <= mmap_bytes(self.mmap).len()
    }

    /// The part of `mmap` that starts at `offset` and is `len` bytes long; `None` where
    /// the map does not hold all of these bytes.
    pub fn try_new(mmap: Mmap, offset: usize, len: usize) -> (data: Option<Self>)
        ensures
            data is Some <==> offset + len <= mmap_bytes(mmap).len(),
            data matches Some(data) ==> data@ == mmap_bytes(mmap).subrange(
                offset as int,
                offset + len,
            ),
    {
        let mmap_len: usize = mmap_slice(&mmap).len();
        match offset.checked_add(len) {
            Some(end_addr) => {
                if end_addr <= mmap_len {
                    Some(MmapSubData { mmap, offset, len })
                } else {
                    None
                }
            },
            None => None,
        }
    }
}

impl View for MmapSubData {
    type V = Seq<u8>;

    closed spec fn view(&self) -> Seq<u8> {
        mmap_bytes(self.mmap).subrange(self.offset as int, self.offset + self.len)
    }
}

impl Deref for MmapSubData {
    type Target = [u8];

    fn deref(&self) -> (bytes: &[u8])
        ensures
            bytes@ == self@,
    {
        proof {
            use_type_invariant(self);
        }
        let bytes = mmap_slice(&self.mmap);
        let tail = vstd::slice::slice_subrange(bytes, self.offset, bytes.len());
        let part = vstd::slice::slice_subrange(tail, 0, self.len);
        assert(part@ =~= self@);
        part
    }
}

/// The bytes of one section, and how they are kept.
pub enum UnwindSectionBytes {
    /// Memory of the profiled task.
    Remapped(VmSubData),
    /// A part of a mapped file.
    Mmap(MmapSubData),
    /// Bytes in memory of our own.
    Allocated(Vec<u8>),
}

impl View for UnwindSectionBytes {
    type V = Seq<u8>;

    open spec fn view(&self) -> Seq<u8> {
        match self {
            UnwindSectionBytes::Remapped(vm_sub_data) => vm_sub_data@,
            UnwindSectionBytes::Mmap(mmap_sub_data) => mmap_sub_data@,
            UnwindSectionBytes::Allocated(vec) => vec@,
        }
    }
}

impl Deref for UnwindSectionBytes {
    type Target = [u8];

    fn deref(&self) -> (bytes: &[u8])
        ensures
            bytes@ == self@,
    {
        match self {
            UnwindSectionBytes::Remapped(vm_sub_data) => vm_sub_data.deref(),
            UnwindSectionBytes::Mmap(mmap_sub_data) => mmap_sub_data.deref(),
            UnwindSectionBytes::Allocated(vec) => vec.as_slice(),
        }
    }
}

} // verus!
