//! Libraries that are loaded into the profiled task.
use crate::profile::library_index;
use crate::profile::LibraryRecord;
use crate::section_bytes::{UnwindSectionBytes, VmSubData};
use crate::unwinder::ModuleSvmaInfo;
use fxprof_processed_profile::LibraryHandle;
use samply_symbols::DebugIdExt;
use vstd::prelude::*;

verus! {

/// Identifies the debug information of a library.
#[derive(Clone, Copy, Debug, PartialEq, Eq, Structural)]
pub struct DebugId {
    pub uuid: u128,
    pub appendix: u32,
}

impl DebugId {
    /// The identifier that consists of zeros only.
    pub fn nil() -> (id: Self)
        ensures
            id == (DebugId { uuid: 0, appendix: 0 }),
    {
        DebugId { uuid: 0, appendix: 0 }
    }
}

/// The exclusive or of every sixteenth byte, from the one at `lane` on.
pub open spec fn lane_xor(bytes: Seq<u8>, lane: int) -> u8
    decreases bytes.len(),
{
    if bytes.len() == 0 {
        0
    } else if (bytes.len() - 1) % 16 == lane {
        lane_xor(bytes.drop_last(), lane) ^ bytes.last()
    } else {
        lane_xor(bytes.drop_last(), lane)
    }
}

/// Which byte of a UUID in a file is the one at `place` when the UUID is written down: the first
/// three fields, of four, two and two bytes, are stored in the byte order of the file.
pub open spec fn uuid_byte(place: int, little_endian: bool) -> int {
    if !little_endian || place >= 8 {
        place
    } else if place < 4 {
        3 - place
    } else if place < 6 {
        9 - place
    } else {
        13 - place
    }
}

/// The number that some bytes spell, the highest first.
pub open spec fn be_number(bytes: Seq<u8>) -> nat
    decreases bytes.len(),
{
    if bytes.len() == 0 {
        0
    } else {
        be_number(bytes.drop_last()) * 256 + bytes.last() as nat
    }
}

/// The debug identifier that is made of the first page of the machine code of a library: its
/// first 4096 bytes in sixteen lanes, taken as a UUID in the byte order of the file.
pub open spec fn text_page_debug_id(page: Seq<u8>, little_endian: bool) -> DebugId {
    let hashed = if page.len() > 4096 {
        page.take(4096)
    } else {
        page
    };
    let uuid = Seq::new(16, |place: int| lane_xor(hashed, uuid_byte(place, little_endian)));
    DebugId { uuid: be_number(uuid) as u128, appendix: 0 }
}

/// Calls `samply_symbols::DebugIdExt::from_text_first_page`. It XORs up to 4096 bytes into
/// sixteen lanes and makes a UUID of them, whose first three fields are in the given byte order.
#[verifier::external_body]
pub(crate) fn debug_id_from_text_first_page(page: &[u8], little_endian: bool) -> (id: DebugId)
    ensures
        id == text_page_debug_id(page@, little_endian),
{
    let id = samply_symbols::debugid::DebugId::from_text_first_page(page, little_endian);
    DebugId { uuid: id.uuid().as_u128(), appendix: id.appendix() }
}

/// Identifies the file of a library.
#[derive(Debug)]
pub enum CodeId {
    /// The time stamp and the image size of a Windows file.
    PeCodeId(u32, u32),
    /// The UUID of a macOS file.
    MachoUuid(u128),
    /// The build ID of a Linux file.
    ElfBuildId(Vec<u8>),
}

/// The mathematical content of a [`CodeId`].
pub enum CodeIdModel {
    PeCodeId(u32, u32),
    MachoUuid(u128),
    ElfBuildId(Seq<u8>),
}

impl View for CodeId {
    type V = CodeIdModel;

    open spec fn view(&self) -> CodeIdModel {
        match self {
            CodeId::PeCodeId(timestamp, image_size) => CodeIdModel::PeCodeId(
                *timestamp,
                *image_size,
            ),
            CodeId::MachoUuid(uuid) => CodeIdModel::MachoUuid(*uuid),
            CodeId::ElfBuildId(bytes) => CodeIdModel::ElfBuildId(bytes@),
        }
    }
}

/// The hexadecimal digit with the given value.
pub open spec fn hex_digit(value: nat, upper: bool) -> char {
    if value < 10 {
        (48 + value) as char
    } else if upper {
        (55 + value) as char
    } else {
        (87 + value) as char
    }
}

/// A number in hexadecimal, with leading zeros up to `width` digits.
pub open spec fn hex(value: nat, width: nat, upper: bool) -> Seq<char>
    decreases value, width,
{
    if value < 16 && width <= 1 {
        seq![hex_digit(value, upper)]
    } else {
        let rest = if width > 0 {
            (width - 1) as nat
        } else {
            0
        };
        hex(value / 16, rest, upper).push(hex_digit(value % 16, upper))
    }
}

/// Bytes in hexadecimal, two small digits for each.
pub open spec fn hex_bytes(bytes: Seq<u8>) -> Seq<char>
    decreases bytes.len(),
{
    if bytes.len() == 0 {
        seq![]
    } else {
        hex_bytes(bytes.drop_last()) + hex(bytes.last() as nat, 2, false)
    }
}

/// How a code identifier is written.
pub open spec fn code_id_text(id: CodeIdModel) -> Seq<char> {
    match id {
        CodeIdModel::PeCodeId(timestamp, image_size) => hex(timestamp as nat, 8, true) + hex(
            image_size as nat,
            1,
            false,
        ),
        CodeIdModel::MachoUuid(uuid) => hex(uuid as nat, 32, true),
        CodeIdModel::ElfBuildId(bytes) => hex_bytes(bytes),
    }
}

/// Calls `to_string` on a `samply_symbols::CodeId`, which writes the parts of the identifier in
/// hexadecimal.
#[verifier::external_body]
pub(crate) fn code_id_to_string(id: CodeId) -> (text: String)
    ensures
        text@ == code_id_text(id@),
{
    let id = match id {
        CodeId::PeCodeId(timestamp, image_size) => samply_symbols::CodeId::PeCodeId(
            samply_symbols::PeCodeId { timestamp, image_size },
        ),
        CodeId::MachoUuid(uuid) => samply_symbols::CodeId::MachoUuid(uuid::Uuid::from_u128(uuid)),
        CodeId::ElfBuildId(bytes) => samply_symbols::CodeId::ElfBuildId(
            samply_symbols::ElfBuildId(bytes),
        ),
    };
    id.to_string()
}

/// What the profile is told about a library.
pub struct LibraryInfo {
    pub name: String,
    pub debug_name: String,
    pub path: String,
    pub debug_path: String,
    pub debug_id: DebugId,
    pub code_id: Option<String>,
    pub arch: Option<String>,
}

/// The characters of a string, if there is one.
pub open spec fn text_view(text: Option<String>) -> Option<Seq<char>> {
    match text {
        Some(text) => Some(text@),
        None => None,
    }
}

impl View for LibraryInfo {
    type V = LibraryRecord;

    open spec fn view(&self) -> LibraryRecord {
        LibraryRecord {
            name: self.name@,
            debug_name: self.debug_name@,
            path: self.path@,
            debug_path: self.debug_path@,
            debug_id: self.debug_id,
            code_id: text_view(self.code_id),
            arch: text_view(self.arch),
            is_plain: true,
        }
    }
}

/// Address and size of the sections that unwinding reads, where a library has them, in the
/// addresses that the file of the library states.
#[derive(Clone, Copy, Debug)]
pub struct UnwindSectionInfo {
    pub unwind_info_section: Option<(u64, u64)>,
    pub eh_frame_section: Option<(u64, u64)>,
    pub text_segment: Option<(u64, u64)>,
}

/// A library that the dynamic linker of the task has loaded.
#[derive(Debug)]
pub struct DyldInfo {
    /// The path of its file.
    pub file: String,
    /// Where it starts in the memory of the task.
    pub base_avma: u64,
    /// How much of that memory it takes up.
    pub vmsize: u64,
    pub svma_info: ModuleSvmaInfo,
    pub unwind_sections: UnwindSectionInfo,
    pub debug_id: Option<DebugId>,
    pub code_id: Option<CodeId>,
    pub arch: Option<&'static str>,
    /// Whether it is the program itself.
    pub is_executable: bool,
}

/// The sections of a library that could be read, out of the memory of the task or out of
/// the file of the library.
pub struct MappedSections {
    pub unwind_info: Option<VmSubData>,
    pub eh_frame: Option<VmSubData>,
    pub text: Option<VmSubData>,
    /// The `debug_frame` section of the file. It matters only where the memory of the task
    /// holds no unwind information.
    pub debug_frame: Option<UnwindSectionBytes>,
}

impl MappedSections {
    /// Whether nothing that was found in the memory of the task tells how to unwind the
    /// library, so that its file has to be consulted.
    pub open spec fn lacks_unwind_info(self) -> bool {
        self.unwind_info is None && self.eh_frame is None
    }

    /// Whether the file of the library has to be consulted for its `debug_frame` section.
    pub fn needs_debug_frame(&self) -> (needed: bool)
        ensures
            needed == self.lacks_unwind_info(),
    {
        self.unwind_info.is_none() && self.eh_frame.is_none()
    }
}

/// A library that was loaded, with its sections.
pub struct MappedLib {
    pub lib: DyldInfo,
    pub sections: MappedSections,
}

/// A change in the libraries that are loaded into a task.
pub enum Modification {
    Added(MappedLib),
    Removed(DyldInfo),
}

/// A handle that the profile gave out, and where the library is mapped by it.
#[derive(Clone, Copy, Debug)]
pub struct LibMappingInfo {
    pub lib_handle: LibraryHandle,
}

/// From some time on, a library is mapped to `start_avma..end_avma`.
#[derive(Clone, Copy, Debug)]
pub struct LibMappingAdd {
    pub start_avma: u64,
    pub end_avma: u64,
    pub relative_address_at_start: u32,
    pub info: LibMappingInfo,
}

/// From some time on, the library that was mapped to `start_avma` is not mapped any more.
#[derive(Clone, Copy, Debug)]
pub struct LibMappingRemove {
    pub start_avma: u64,
}

/// A change in what the memory of the task holds.
#[derive(Clone, Copy, Debug)]
pub enum LibMappingOp {
    Add(LibMappingAdd),
    Remove(LibMappingRemove),
}

/// The mathematical content of a [`LibMappingOp`].
pub enum LibOpModel {
    Add { start_avma: u64, end_avma: u64, relative_address_at_start: u32, library: nat },
    Remove { start_avma: u64 },
}

impl View for LibMappingOp {
    type V = LibOpModel;

    open spec fn view(&self) -> LibOpModel {
        match self {
            LibMappingOp::Add(add) => LibOpModel::Add {
                start_avma: add.start_avma,
                end_avma: add.end_avma,
                relative_address_at_start: add.relative_address_at_start,
                library: library_index(add.info.lib_handle),
            },
            LibMappingOp::Remove(remove) => LibOpModel::Remove { start_avma: remove.start_avma },
        }
    }
}

/// The changes in what the memory of the task holds, each with its time, in the order in
/// which they came.
pub struct LibMappingOpQueue {
    ops: Vec<(u64, LibMappingOp)>,
}

impl View for LibMappingOpQueue {
    type V = Seq<(u64, LibOpModel)>;

    closed spec fn view(&self) -> Seq<(u64, LibOpModel)> {
        self.ops@.map_values(|op: (u64, LibMappingOp)| (op.0, op.1@))
    }
}

impl LibMappingOpQueue {
    /// A queue without changes.
    pub fn new() -> (queue: Self)
        ensures
            queue@ == Seq::<(u64, LibOpModel)>::empty(),
    {
        let queue = LibMappingOpQueue { ops: Vec::new() };
        assert(queue@ =~= Seq::<(u64, LibOpModel)>::empty());
        queue
    }

    /// Appends a change.
    pub fn push(&mut self, timestamp: u64, op: LibMappingOp)
        ensures
            final(self)@ == old(self)@.push((timestamp, op@)),
    {
        self.ops.push((timestamp, op));
        assert(self@ =~= old(self)@.push((timestamp, op@)));
    }

    /// Hands the changes out.
    pub fn into_ops(self) -> (ops: Vec<(u64, LibMappingOp)>)
        ensures
            ops@.map_values(|op: (u64, LibMappingOp)| (op.0, op.1@)) == self@,
    {
        self.ops
    }
}

} // verus!
