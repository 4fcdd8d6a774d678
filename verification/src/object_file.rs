//! What is read out of object files and out of compressed sections.
use object::{Object, ObjectSection as _};
use vstd::prelude::*;

verus! {

/// How the bytes of a section are stored in a file.
#[derive(Clone, Copy, Debug, PartialEq, Eq, Structural)]
pub enum CompressionFormat {
    /// As they are.
    Uncompressed,
    /// Compressed, nobody knows how.
    Unknown,
    /// As a zlib stream.
    Zlib,
    /// As a Zstandard stream.
    Zstandard,
    /// In a format that has no name here.
    Other,
}

/// Where in a file a section is stored, and how.
#[derive(Clone, Copy, Debug, PartialEq, Eq, Structural)]
pub struct CompressedFileRange {
    pub format: CompressionFormat,
    /// The file offset of the stored bytes.
    pub offset: u64,
    /// How many bytes are stored.
    pub compressed_size: u64,
    /// How many bytes the section has once it is decompressed.
    pub uncompressed_size: u64,
}

/// One section of an object file.
pub struct ObjectSection<'data> {
    /// File offset and size of the section, where it is in the file at all.
    pub file_range: Option<(u64, u64)>,
    /// The bytes of the section as they stand in the file, where they can be read.
    pub data: Option<&'data [u8]>,
}

/// The mathematical content of an [`ObjectSection`].
pub struct SectionModel {
    pub file_range: Option<(u64, u64)>,
    pub data: Option<Seq<u8>>,
}

impl<'data> View for ObjectSection<'data> {
    type V = SectionModel;

    open spec fn view(&self) -> SectionModel {
        SectionModel {
            file_range: self.file_range,
            data: match self.data {
                Some(data) => Some(data@),
                None => None,
            },
        }
    }
}

/// The section called `name` in the object file that consists of the bytes `file`;
/// `None` where the bytes are no object file or it has no such section.
pub uninterp spec fn object_section(file: Seq<u8>, name: Seq<char>) -> Option<SectionModel>;

/// Parses `file` with `object::read::File::parse`, looks `name` up with
/// `Object::section_by_name`, and asks the section for its `file_range` and its `data`.
/// The answers depend on the two arguments alone; what they are for given bytes is not
/// stated.
#[verifier::external_body]
pub(crate) fn find_section<'data>(file: &'data [u8], name: &str) -> (section: Option<
    ObjectSection<'data>,
>)
    ensures
        section is Some <==> object_section(file@, name@) is Some,
        section matches Some(section) ==> object_section(file@, name@) == Some(section@),
{
    let object = object::read::File::parse(file).ok()?;
    let section = object.section_by_name(name)?;
    Some(ObjectSection { file_range: section.file_range(), data: section.data().ok() })
}

/// Where the section called `name` is stored in the object file that consists of the
/// bytes `file`; `None` where the bytes are no object file, it has no such section, or
/// the section's compression header cannot be read.
pub uninterp spec fn section_storage(file: Seq<u8>, name: Seq<char>) -> Option<
    CompressedFileRange,
>;

/// Parses `file` with `object::read::File::parse`, looks `name` up with
/// `Object::section_by_name`, and asks the section for its `compressed_file_range`. The
/// answer depends on the two arguments alone; what it is for given bytes is not stated.
#[verifier::external_body]
pub(crate) fn find_section_storage(file: &[u8], name: &str) -> (range: Option<
    CompressedFileRange,
>)
    ensures
        range == section_storage(file@, name@),
{
    let object = object::read::File::parse(file).ok()?;
    let range = object.section_by_name(name)?.compressed_file_range().ok()?;
    let format = match range.format {
        object::CompressionFormat::None => CompressionFormat::Uncompressed,
        object::CompressionFormat::Unknown => CompressionFormat::Unknown,
        object::CompressionFormat::Zlib => CompressionFormat::Zlib,
        object::CompressionFormat::Zstandard => CompressionFormat::Zstandard,
        _ => CompressionFormat::Other,
    };
    let (offset, compressed_size) = (range.offset, range.compressed_size);
    let uncompressed_size = range.uncompressed_size;
    Some(CompressedFileRange { format, offset, compressed_size, uncompressed_size })
}

/// The bytes of a vector, if there is one.
pub open spec fn vec_view(bytes: Option<Vec<u8>>) -> Option<Seq<u8>> {
    match bytes {
        Some(bytes) => Some(bytes@),
        None => None,
    }
}

/// What a zlib decoder makes of the stream `compressed` when it writes into a vector that was
/// made for `size` bytes and has room for `capacity`: the bytes it wrote, or `None` where it found
/// the stream corrupt.
pub uninterp spec fn inflated(compressed: Seq<u8>, size: nat, capacity: nat) -> Option<Seq<u8>>;

/// Calls `flate2::Decompress::decompress_vec` on a new decoder that expects a zlib
/// header and on an empty vector that was made for `size` bytes. The decoder fills the
/// vector up to its capacity and never beyond. The allocator may have made the capacity
/// larger than `size`, so the first result says what it was.
#[verifier::external_body]
pub(crate) fn inflate(compressed: &[u8], size: usize) -> (result: (usize, Option<Vec<u8>>))
    requires
        size <= isize::MAX,
    ensures
        size <= result.0,
        vec_view(result.1) == inflated(compressed@, size as nat, result.0 as nat),
        result.1 matches Some(bytes) ==> bytes@.len() <= result.0,
{
    let mut decompressed = Vec::with_capacity(size);
    let capacity = decompressed.capacity();
    let mut decompress = flate2::Decompress::new(true);
    let status = decompress.decompress_vec(
        compressed,
        &mut decompressed,
        flate2::FlushDecompress::Finish,
    );
    match status {
        Ok(_) => (capacity, Some(decompressed)),
        Err(_) => (capacity, None),
    }
}

} // verus!
