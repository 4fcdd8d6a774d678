//! What is read out of files and out of the answers of the kernel, said piece by piece.
use crate::debug_frame::{
    debug_frame, debug_frame_in_bounds, debug_frame_storage, has_zlib_header, kept_in_place,
    section_view, stored_section, stream_in_bounds, zdebug_in_bounds, zdebug_storage, zlib_magic,
};
use crate::error::{KernelError, SamplingError};
use crate::laws::lemma_component_start_behind;
use crate::object_file::{
    inflated, object_section, section_storage, vec_view, CompressedFileRange, CompressionFormat,
    ObjectSection, SectionModel,
};
use crate::paths::{component_start, path_file_name};
use crate::section_bytes::UnwindSectionBytes;
use crate::thread_list::listing_failure;
use vstd::prelude::*;

verus! {

/// Whether the bytes of a section start with `ZLIB`, four zeros and a size of four bytes.
pub open spec fn starts_like_zdebug(data: Seq<u8>) -> bool {
    &&& data.len() >= 12
    &&& data[0] == 0x5a && data[1] == 0x4c && data[2] == 0x49 && data[3] == 0x42
    &&& data[4] == 0 && data[5] == 0 && data[6] == 0 && data[7] == 0
}

proof fn lemma_starts_like_zdebug(data: Seq<u8>)
    ensures
        has_zlib_header(data) <==> starts_like_zdebug(data),
{
    let magic = zlib_magic();
    if data.len() >= 12 {
        let front = data.subrange(0, 8);
        if front == magic {
            assert(forall|i: int| 0 <= i < 8 ==> front[i] == data[i]);
            assert(data[0] == front[0] && data[1] == front[1] && data[2] == front[2] && data[3]
                == front[3] && data[4] == front[4] && data[5] == front[5] && data[6] == front[6]
                && data[7] == front[7]);
        }
        if starts_like_zdebug(data) {
            assert(front =~= magic);
        }
    }
}

/// A `__zdebug_frame` section that is in the file, can be read and starts with its header holds a
/// zlib stream: everything behind the twelve bytes of the header. The last four bytes of the header
/// are the size of what comes out, the highest byte first. Any other section holds none.
pub proof fn law_zdebug_stream_is_behind_the_header(section: SectionModel)
    requires
        zdebug_in_bounds(section),
    ensures
        zdebug_storage(section) is Some <==> section.file_range is Some && section.data is Some
            && starts_like_zdebug(section.data->0),
        zdebug_storage(section) matches Some(range) ==> {
            let (start, size) = section.file_range->0;
            let data = section.data->0;
            &&& range.format == CompressionFormat::Zlib
            &&& range.offset == start + 12
            &&& range.compressed_size + 12 == size
            &&& range.uncompressed_size == ((data[8] * 256 + data[9]) * 256 + data[10]) * 256
                + data[11]
        },
{
    if section.data is Some {
        lemma_starts_like_zdebug(section.data->0);
    }
}

/// The section of a file that holds its unwind information: `__zdebug_frame` if there is one, and
/// only else `__debug_frame`.
pub proof fn law_which_section_is_read(file: Seq<u8>, bytes: Option<Seq<u8>>)
    ensures
        object_section(file, "__zdebug_frame"@) matches Some(section) ==> debug_frame_storage(file)
            == zdebug_storage(section),
        object_section(file, "__zdebug_frame"@) is None ==> debug_frame_storage(file)
            == section_storage(file, "__debug_frame"@),
        debug_frame_storage(file) is None ==> (debug_frame(file, bytes) <==> bytes is None),
        debug_frame_storage(file) matches Some(range) ==> (debug_frame(file, bytes)
            <==> stored_section(file, range, bytes)),
{
}

/// What stands in a file at a range. Bytes that are stored as they are come out if and only if all
/// of them are in the file. A zlib stream comes out as what the decoder makes of exactly the bytes
/// of the range, in a vector that was made for the size that the range states. Any other format
/// comes out as nothing.
pub proof fn law_stored_sections_by_format(
    file: Seq<u8>,
    range: CompressedFileRange,
    bytes: Option<Seq<u8>>,
)
    requires
        stored_section(file, range, bytes),
    ensures
        range.format == CompressionFormat::Uncompressed ==> {
            let (offset, size) = (range.offset as usize, range.uncompressed_size as usize);
            &&& bytes is Some <==> offset + size <= file.len()
            &&& bytes matches Some(bytes) ==> bytes.len() == size && forall|i: int|
                0 <= i < size ==> bytes[i] == file[offset + i]
        },
        range.format == CompressionFormat::Zlib && stream_in_bounds(file.len(), range) ==> {
            let (offset, size) = (range.offset as usize, range.compressed_size as usize);
            exists|stream: Seq<u8>, capacity: nat|
                {
                    &&& stream.len() == size
                    &&& forall|i: int| 0 <= i < size ==> stream[i] == file[offset + i]
                    &&& capacity >= range.uncompressed_size as usize
                    &&& bytes == #[trigger] inflated(
                        stream,
                        (range.uncompressed_size as usize) as nat,
                        capacity,
                    )
                }
        },
        range.format != CompressionFormat::Uncompressed && range.format != CompressionFormat::Zlib
            ==> bytes is None,
{
    if range.format == CompressionFormat::Zlib && stream_in_bounds(file.len(), range) {
        let offset = range.offset as usize;
        let stream = file.subrange(offset as int, offset + (range.compressed_size as usize));
        let capacity = choose|capacity: nat|
            (range.uncompressed_size as usize) <= capacity && bytes == #[trigger] inflated(
                stream,
                (range.uncompressed_size as usize) as nat,
                capacity,
            );
        assert(bytes == inflated(stream, (range.uncompressed_size as usize) as nat, capacity));
    }
}

/// Which headers are sound: a `__zdebug_frame` section with its header has room for it, and a zlib
/// stream lies inside the file and states a size for which there can be a vector. Nothing else is
/// asked of a file.
pub proof fn law_which_headers_are_sound(
    file: Seq<u8>,
    section: SectionModel,
    range: CompressedFileRange,
)
    ensures
        zdebug_in_bounds(section) <==> (section.file_range is Some && section.data is Some
            && starts_like_zdebug(section.data->0) ==> (section.file_range->0).0 + 12 <= u64::MAX
            && (section.file_range->0).1 >= 12),
        stream_in_bounds(file.len(), range) <==> (range.format == CompressionFormat::Zlib ==> (
        range.offset as usize) + (range.compressed_size as usize) <= file.len() && (
        range.uncompressed_size as usize) <= isize::MAX),
        debug_frame_in_bounds(file) <==> {
            &&& object_section(file, "__zdebug_frame"@) matches Some(found) ==> zdebug_in_bounds(
                found,
            )
            &&& debug_frame_storage(file) matches Some(stored) ==> stream_in_bounds(
                file.len(),
                stored,
            )
        },
{
    if section.data is Some {
        lemma_starts_like_zdebug(section.data->0);
    }
}

/// A section that is found is kept in the map if and only if the file has it as it is; what was
/// decompressed is in memory of our own.
pub proof fn law_where_a_section_is_kept(file: Seq<u8>, bytes: UnwindSectionBytes)
    requires
        kept_in_place(file, Some(bytes)),
    ensures
        debug_frame_storage(file) is Some,
        bytes is Mmap <==> debug_frame_storage(file)->0.format == CompressionFormat::Uncompressed,
        bytes is Allocated <==> debug_frame_storage(file)->0.format
            != CompressionFormat::Uncompressed,
{
}

/// The bytes of a section are the bytes that are kept, however they are.
pub proof fn law_section_means_its_bytes(bytes: UnwindSectionBytes, owned: Vec<u8>)
    ensures
        match bytes {
            UnwindSectionBytes::Remapped(data) => bytes@ == data@,
            UnwindSectionBytes::Mmap(data) => bytes@ == data@,
            UnwindSectionBytes::Allocated(data) => bytes@ == data@,
        },
        section_view(Some(bytes)) == Some(bytes@),
        section_view(None) is None,
        vec_view(Some(owned)) == Some(owned@),
        vec_view(None) is None,
{
}

/// A section of an object file stands for what its fields say.
pub proof fn law_object_section_means_its_fields(section: ObjectSection)
    ensures
        section@.file_range == section.file_range,
        section.data is None ==> section@.data is None,
        section.data matches Some(data) ==> section@.data == Some(data@),
{
}

/// What it means that the threads could not be listed: the process has terminated if and only if
/// the kernel does not know the task any more. Any other error may pass. The answer of the kernel
/// is kept.
pub proof fn law_listing_failures(err: KernelError)
    ensures
        match listing_failure(err) {
            SamplingError::ProcessTerminated(place, cause) => {
                &&& place == "task_threads in get_thread_list"
                &&& cause == err
                &&& err is InvalidArgument || err is MachSendInvalidDest || err is Terminated
            },
            SamplingError::Ignorable(place, cause) => {
                &&& place == "task_threads in get_thread_list"
                &&& cause == err
                &&& err is Other
            },
            SamplingError::Fatal(_, _) => false,
        },
{
}

/// A dot at the end of a path does not change the name of the file, and a double dot leaves it
/// without one. A path without a slash is the name itself, unless it is empty or consists of one or
/// two dots.
pub proof fn law_dots_and_bare_names(path: Seq<char>, name: Seq<char>)
    requires
        !name.contains('/'),
    ensures
        path_file_name(path + seq!['/', '.']) == path_file_name(path),
        path_file_name(path + seq!['/', '.', '.']) is None,
        name.len() > 0 && name != seq!['.'] && name != seq!['.', '.'] ==> path_file_name(name)
            == Some(name),
        name.len() == 0 || name == seq!['.'] || name == seq!['.', '.'] ==> path_file_name(name)
            is None,
{
    let dotted = path + seq!['/', '.'];
    let front = path + seq!['/'];
    assert(dotted =~= front + seq!['.']);
    lemma_component_start_behind(front, seq!['.']);
    assert(dotted.skip(front.len() as int) =~= seq!['.']);
    assert(dotted.take(front.len() - 1) =~= path);
    let parent = path + seq!['/', '.', '.'];
    assert(parent =~= front + seq!['.', '.']);
    lemma_component_start_behind(front, seq!['.', '.']);
    assert(parent.skip(front.len() as int) =~= seq!['.', '.']);
    assert(seq!['.', '.'].len() != seq!['.'].len());
    lemma_start_of_bare_name(name);
    assert(name.skip(0) =~= name);
}

proof fn lemma_start_of_bare_name(name: Seq<char>)
    requires
        !name.contains('/'),
    ensures
        component_start(name) == 0,
    decreases name.len(),
{
    if name.len() > 0 {
        assert(name.contains(name.last()));
        let rest = name.drop_last();
        assert forall|i: int| 0 <= i < rest.len() implies rest[i] != '/' by {
            assert(name.contains(name[i]));
        }
        lemma_start_of_bare_name(rest);
    }
}

} // verus!
