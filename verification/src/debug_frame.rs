//! Unwind information from the `debug_frame` section of a file.
use crate::mapped_file::{mmap_bytes, mmap_slice};
use crate::object_file::{
    find_section, find_section_storage, inflate, inflated, object_section, section_storage,
    vec_view, CompressedFileRange, CompressionFormat, ObjectSection, SectionModel,
};
use crate::section_bytes::{MmapSubData, UnwindSectionBytes};
use memmap2::Mmap;
use vstd::prelude::*;

verus! {

/// What a compressed `__zdebug_frame` section starts with. The size of the section once
/// it is decompressed follows, as a big-endian number of four bytes.
pub open spec fn zlib_magic() -> Seq<u8> {
    seq![0x5au8, 0x4c, 0x49, 0x42, 0, 0, 0, 0]
}

/// The big-endian number that the four bytes from `at` on spell.
pub open spec fn be_u32(bytes: Seq<u8>, at: int) -> int {
    bytes[at] * 0x100_0000 + bytes[at + 1] * 0x1_0000 + bytes[at + 2] * 0x100 + bytes[at + 3]
}

/// Whether the bytes of a section start with the header of a compressed section.
pub open spec fn has_zlib_header(data: Seq<u8>) -> bool {
    data.len() >= 12 && data.subrange(0, 8) == zlib_magic()
}

/// Whether the compressed bytes of a section with a header lie inside the address space
/// and behind the header: the file range has room for the header and its end can be
/// written down.
pub open spec fn zdebug_in_bounds(section: SectionModel) -> bool {
    match (section.file_range, section.data) {
        (Some((start, size)), Some(data)) => has_zlib_header(data) ==> start + 12 <= u64::MAX
            && size >= 12,
        _ => true,
    }
}

/// Where the zlib stream of a `__zdebug_frame` section is stored.
pub open spec fn zdebug_storage(section: SectionModel) -> Option<CompressedFileRange> {
    match (section.file_range, section.data) {
        (Some((start, size)), Some(data)) => if has_zlib_header(data) {
            Some(
                CompressedFileRange {
                    format: CompressionFormat::Zlib,
                    offset: (start + 12) as u64,
                    compressed_size: (size - 12) as u64,
                    uncompressed_size: be_u32(data, 8) as u64,
                },
            )
        } else {
            None
        },
        _ => None,
    }
}

fn starts_with_zlib_magic(data: &[u8]) -> (yes: bool)
    ensures
        yes <==> data@.len() >= 8 && data@.subrange(0, 8) == zlib_magic(),
{
    if data.len() < 8 {
        return false;
    }
    let magic: [u8; 8] = [0x5a, 0x4c, 0x49, 0x42, 0, 0, 0, 0];
    let mut i: usize = 0;
    while i < 8
        invariant
            i <= 8 <= data@.len(),
            magic@ == zlib_magic(),
            forall|j: int| 0 <= j < i ==> data@[j] == magic@[j],
        decreases 8 - i,
    {
        if data[i] != magic[i] {
            assert(data@.subrange(0, 8)[i as int] != zlib_magic()[i as int]);
            return false;
        }
        i += 1;
    }
    assert(data@.subrange(0, 8) =~= zlib_magic());
    true
}

/// Where the zlib stream of a `__zdebug_frame` section is stored; `None` where the
/// section is not in the file, cannot be read or does not start with the header of a
/// compressed section.
///
/// Go binaries use compressed sections of the `__zdebug_*` type even on macOS, where
/// doing so is quite uncommon.
pub fn zdebug_frame_range(section: &ObjectSection) -> (range: Option<CompressedFileRange>)
    requires
        zdebug_in_bounds(section@),
    ensures
        range == zdebug_storage(section@),
{
    let (file_range_start, file_range_size) = match section.file_range {
        Some(file_range) => file_range,
        None => return None,
    };
    let section_data = match section.data {
        Some(section_data) => section_data,
        None => return None,
    };
    if !starts_with_zlib_magic(section_data) || section_data.len() < 12 {
        return None;
    }
    let uncompressed_size: u32 = section_data[8] as u32 * 0x100_0000 + section_data[9] as u32
        * 0x1_0000 + section_data[10] as u32 * 0x100 + section_data[11] as u32;
    Some(
        CompressedFileRange {
            format: CompressionFormat::Zlib,
            offset: file_range_start + 12,
            compressed_size: file_range_size - 12,
            uncompressed_size: uncompressed_size as u64,
        },
    )
}

/// Whether a zlib stream that is stored at `range` lies inside a file of `len` bytes,
/// and there can be a vector for the bytes that come out of it.
pub open spec fn stream_in_bounds(len: nat, range: CompressedFileRange) -> bool {
    range.format == CompressionFormat::Zlib ==> {
        &&& (range.offset as usize) + (range.compressed_size as usize) <= len
        &&& (range.uncompressed_size as usize) <= isize::MAX
    }
}

/// Whether `bytes` is what stands in `file` at `range`: the bytes there themselves, or
/// what comes out of the zlib stream there when it is given a vector for as many bytes as the
/// range says; `None` where the range is not inside the file, the stream is corrupt
/// or the format is another one.
pub open spec fn stored_section(
    file: Seq<u8>,
    range: CompressedFileRange,
    bytes: Option<Seq<u8>>,
) -> bool {
    let offset = range.offset as usize;
    match range.format {
        CompressionFormat::Uncompressed => {
            let size = range.uncompressed_size as usize;
            bytes == if offset + size <= file.len() {
                Some(file.subrange(offset as int, offset + size))
            } else {
                None
            }
        },
        CompressionFormat::Zlib => exists|capacity: nat|
            (range.uncompressed_size as usize) <= capacity && bytes == #[trigger] inflated(
                file.subrange(offset as int, offset + (range.compressed_size as usize)),
                (range.uncompressed_size as usize) as nat,
                capacity,
            ),
        _ => bytes is None,
    }
}

/// The bytes of a section, if there is one.
pub open spec fn section_view(section: Option<UnwindSectionBytes>) -> Option<Seq<u8>> {
    match section {
        Some(bytes) => Some(bytes@),
        None => None,
    }
}

/// Takes the section that is stored at `range` out of a mapped file. What is stored as it
/// is stays in the map; what is compressed is decompressed.
pub fn read_stored_section(mmap: Mmap, range: CompressedFileRange) -> (section: Option<
    UnwindSectionBytes,
>)
    requires
        stream_in_bounds(mmap_bytes(mmap).len(), range),
    ensures
        stored_section(mmap_bytes(mmap), range, section_view(section)),
        section matches Some(bytes) ==> match range.format {
            CompressionFormat::Uncompressed => bytes is Mmap,
            _ => bytes is Allocated,
        },
{
    match range.format {
        CompressionFormat::Uncompressed => {
            match MmapSubData::try_new(
                mmap,
                range.offset as usize,
                range.uncompressed_size as usize,
            ) {
                Some(data) => Some(UnwindSectionBytes::Mmap(data)),
                None => None,
            }
        },
        CompressionFormat::Zlib => {
            let bytes = mmap_slice(&mmap);
            let tail = vstd::slice::slice_subrange(bytes, range.offset as usize, bytes.len());
            let compressed_bytes = vstd::slice::slice_subrange(
                tail,
                0,
                range.compressed_size as usize,
            );
            let (capacity, decompressed) = inflate(
                compressed_bytes,
                range.uncompressed_size as usize,
            );
            proof {
                let start = range.offset as usize;
                assert(compressed_bytes@ =~= mmap_bytes(mmap).subrange(
                    start as int,
                    start + (range.compressed_size as usize),
                ));
                assert(inflated(
                    compressed_bytes@,
                    (range.uncompressed_size as usize) as nat,
                    capacity as nat,
                ) == vec_view(decompressed));
            }
            match decompressed {
                Some(decompressed) => Some(UnwindSectionBytes::Allocated(decompressed)),
                None => None,
            }
        },
        _ => None,
    }
}

/// Where the `debug_frame` section of an object file is stored. A `__zdebug_frame` section
/// comes first: where there is one, a `__debug_frame` section is not looked for.
pub open spec fn debug_frame_storage(file: Seq<u8>) -> Option<CompressedFileRange> {
    match object_section(file, "__zdebug_frame"@) {
        Some(section) => zdebug_storage(section),
        None => section_storage(file, "__debug_frame"@),
    }
}

/// Whether everything that the section headers of an object file say of its `debug_frame`
/// section lies inside the file.
pub open spec fn debug_frame_in_bounds(file: Seq<u8>) -> bool {
    &&& object_section(file, "__zdebug_frame"@) matches Some(section) ==> zdebug_in_bounds(section)
    &&& debug_frame_storage(file) matches Some(range) ==> stream_in_bounds(file.len(), range)
}

/// Whether `bytes` is the `debug_frame` section of an object file; `None` where it has none,
/// or none that can be read.
pub open spec fn debug_frame(file: Seq<u8>, bytes: Option<Seq<u8>>) -> bool {
    match debug_frame_storage(file) {
        Some(range) => stored_section(file, range, bytes),
        None => bytes is None,
    }
}

fn zdebug_is_in_bounds(section: &ObjectSection) -> (sound: bool)
    ensures
        sound == zdebug_in_bounds(section@),
{
    match (section.file_range, section.data) {
        (Some((start, size)), Some(data)) => !(starts_with_zlib_magic(data) && data.len() >= 12)
            || (start <= u64::MAX - 12 && size >= 12),
        _ => true,
    }
}

fn stream_is_in_bounds(len: usize, range: &CompressedFileRange) -> (sound: bool)
    ensures
        sound == stream_in_bounds(len as nat, *range),
{
    match range.format {
        CompressionFormat::Zlib => {
            let start: usize = range.offset as usize;
            let size: usize = range.compressed_size as usize;
            start <= len && size <= len - start && range.uncompressed_size as usize
                <= isize::MAX as usize
        },
        _ => true,
    }
}

/// Whether `section` is kept where the file had it: in the map where the bytes stand there
/// as they are, in memory of our own where they had to be decompressed.
pub open spec fn kept_in_place(file: Seq<u8>, section: Option<UnwindSectionBytes>) -> bool {
    section matches Some(bytes) ==> {
        &&& debug_frame_storage(file) is Some
        &&& match debug_frame_storage(file)->0.format {
            CompressionFormat::Uncompressed => bytes is Mmap,
            _ => bytes is Allocated,
        }
    }
}

fn debug_frame_range(data: &[u8]) -> (range: Option<CompressedFileRange>)
    requires
        object_section(data@, "__zdebug_frame"@) matches Some(section) ==> zdebug_in_bounds(
            section,
        ),
    ensures
        range == debug_frame_storage(data@),
{
    match find_section(data, "__zdebug_frame") {
        Some(zdebug_frame_section) => zdebug_frame_range(&zdebug_frame_section),
        None => find_section_storage(data, "__debug_frame"),
    }
}

/// Finds the `debug_frame` section of the object file that is mapped at `mmap`. The headers
/// of the file have to be sound; [`try_get_debug_frame`] takes any file.
pub fn get_debug_frame(mmap: Mmap) -> (section: Option<UnwindSectionBytes>)
    requires
        debug_frame_in_bounds(mmap_bytes(mmap)),
    ensures
        debug_frame(mmap_bytes(mmap), section_view(section)),
        kept_in_place(mmap_bytes(mmap), section),
{
    match debug_frame_range(mmap_slice(&mmap)) {
        Some(compressed_range) => read_stored_section(mmap, compressed_range),
        None => None,
    }
}

/// Whether the headers of an object file are sound, as far as its `debug_frame` section goes.
fn has_sound_debug_frame(data: &[u8]) -> (sound: bool)
    ensures
        sound == debug_frame_in_bounds(data@),
{
    if let Some(zdebug_frame_section) = find_section(data, "__zdebug_frame") {
        if !zdebug_is_in_bounds(&zdebug_frame_section) {
            return false;
        }
    }
    match debug_frame_range(data) {
        Some(compressed_range) => stream_is_in_bounds(data.len(), &compressed_range),
        None => true,
    }
}

/// Finds the `debug_frame` section of the object file that is mapped at `mmap`, like
/// [`get_debug_frame`]; `None` where the headers of the file point outside of it.
pub fn try_get_debug_frame(mmap: Mmap) -> (found: Option<Option<UnwindSectionBytes>>)
    ensures
        found is Some <==> debug_frame_in_bounds(mmap_bytes(mmap)),
        found matches Some(section) ==> debug_frame(mmap_bytes(mmap), section_view(section))
            && kept_in_place(mmap_bytes(mmap), section),
{
    if has_sound_debug_frame(mmap_slice(&mmap)) {
        Some(get_debug_frame(mmap))
    } else {
        None
    }
}

} // verus!
