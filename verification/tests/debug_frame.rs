use flate2::write::ZlibEncoder;
use flate2::Compression;
use memmap2::{Mmap, MmapMut};
use std::io::Write;
use std::ops::Deref;
use task_profiler::debug_frame::{
    get_debug_frame, read_stored_section, try_get_debug_frame, zdebug_frame_range,
};
use task_profiler::object_file::{CompressedFileRange, CompressionFormat, ObjectSection};
use task_profiler::section_bytes::UnwindSectionBytes;

const CONTENT: &[u8] = b"some bytes that tell how to unwind, some bytes that tell how to unwind";

fn mapped(bytes: &[u8]) -> Mmap {
    let mut mmap = MmapMut::map_anon(bytes.len()).unwrap();
    mmap.copy_from_slice(bytes);
    mmap.make_read_only().unwrap()
}

fn zlib(bytes: &[u8]) -> Vec<u8> {
    let mut encoder = ZlibEncoder::new(Vec::new(), Compression::default());
    encoder.write_all(bytes).unwrap();
    encoder.finish().unwrap()
}

fn padded_name(name: &str) -> [u8; 16] {
    let mut padded = [0; 16];
    padded[..name.len()].copy_from_slice(name.as_bytes());
    padded
}

/// A mach-O file with the given sections.
fn mach_o(sections: &[(&str, Vec<u8>)]) -> Vec<u8> {
    let command_size = 72 + 80 * sections.len();
    let mut offset = 32 + command_size;
    let mut file = Vec::new();
    for word in [0xfeed_facf_u32, 0x0100_0007, 3, 2, 1, command_size as u32, 0, 0] {
        file.extend(word.to_le_bytes());
    }
    file.extend(0x19_u32.to_le_bytes());
    file.extend((command_size as u32).to_le_bytes());
    file.extend(padded_name("__DWARF"));
    let size: usize = sections.iter().map(|(_, data)| data.len()).sum();
    for number in [0, size as u64, offset as u64, size as u64] {
        file.extend(number.to_le_bytes());
    }
    for word in [7_u32, 7, sections.len() as u32, 0] {
        file.extend(word.to_le_bytes());
    }
    for (name, data) in sections {
        file.extend(padded_name(name));
        file.extend(padded_name("__DWARF"));
        file.extend(0_u64.to_le_bytes());
        file.extend((data.len() as u64).to_le_bytes());
        file.extend((offset as u32).to_le_bytes());
        file.extend([0; 28]);
        offset += data.len();
    }
    for (_, data) in sections {
        file.extend(data);
    }
    file
}

/// An ELF file whose only section is compressed.
fn elf_with_compressed(name: &str, format: u32, size: u64, stream: &[u8]) -> Vec<u8> {
    let mut names = vec![0];
    names.extend(name.as_bytes());
    names.push(0);
    let section_offset = 64;
    let section_size = 24 + stream.len();
    let names_offset = section_offset + section_size;
    let mut headers_offset = names_offset + names.len();
    headers_offset += (8 - headers_offset % 8) % 8;
    let mut file = vec![0x7f, b'E', b'L', b'F', 2, 1, 1, 0, 0, 0, 0, 0, 0, 0, 0, 0];
    file.extend(1_u16.to_le_bytes());
    file.extend(62_u16.to_le_bytes());
    file.extend(1_u32.to_le_bytes());
    file.extend([0; 16]);
    file.extend((headers_offset as u64).to_le_bytes());
    file.extend([0; 4]);
    for half in [64_u16, 0, 0, 64, 3, 2] {
        file.extend(half.to_le_bytes());
    }
    file.extend(format.to_le_bytes());
    file.extend([0; 4]);
    file.extend(size.to_le_bytes());
    file.extend(1_u64.to_le_bytes());
    file.extend(stream);
    file.extend(&names);
    file.resize(headers_offset, 0);
    file.extend([0; 64]);
    for (name, kind, flags, offset, size) in [
        (1_u32, 1_u32, 0x800_u64, section_offset as u64, section_size as u64),
        (0, 3, 0, names_offset as u64, names.len() as u64),
    ] {
        file.extend(name.to_le_bytes());
        file.extend(kind.to_le_bytes());
        file.extend(flags.to_le_bytes());
        file.extend(0_u64.to_le_bytes());
        file.extend(offset.to_le_bytes());
        file.extend(size.to_le_bytes());
        file.extend([0; 8]);
        file.extend(1_u64.to_le_bytes());
        file.extend(0_u64.to_le_bytes());
    }
    file
}

/// A section with a header that says how many bytes it holds, and what follows the header.
fn zdebug(size: u32, stream: &[u8]) -> Vec<u8> {
    let mut section = b"ZLIB\0\0\0\0".to_vec();
    section.extend(size.to_be_bytes());
    section.extend(stream);
    section
}

fn found(file: &[u8]) -> Option<UnwindSectionBytes> {
    try_get_debug_frame(mapped(file)).unwrap()
}

#[test]
fn plain_section_stays_in_the_map() {
    let file = mach_o(&[("__text", vec![0x90; 5]), ("__debug_frame", CONTENT.to_vec())]);
    let section = found(&file).unwrap();
    assert!(matches!(section, UnwindSectionBytes::Mmap(_)));
    assert_eq!(section.deref(), CONTENT);
    assert_eq!(get_debug_frame(mapped(&file)).unwrap().deref(), CONTENT);
}

#[test]
fn compressed_section_is_decompressed() {
    let section = zdebug(CONTENT.len() as u32, &zlib(CONTENT));
    let section = found(&mach_o(&[("__zdebug_frame", section)])).unwrap();
    assert!(matches!(section, UnwindSectionBytes::Allocated(_)));
    assert_eq!(section.deref(), CONTENT);
}

#[test]
fn compressed_section_comes_first() {
    let section = zdebug(CONTENT.len() as u32, &zlib(CONTENT));
    let file = mach_o(&[("__debug_frame", b"other".to_vec()), ("__zdebug_frame", section)]);
    assert_eq!(found(&file).unwrap().deref(), CONTENT);
}

#[test]
fn compressed_section_without_header_hides_the_plain_one() {
    let plain = ("__debug_frame", CONTENT.to_vec());
    let file = mach_o(&[plain.clone(), ("__zdebug_frame", zlib(CONTENT))]);
    assert!(found(&file).is_none());
    let file = mach_o(&[plain.clone(), ("__zdebug_frame", b"ZLIB\0\0\0\0\0\0\0".to_vec())]);
    assert!(found(&file).is_none());
    let file = mach_o(&[plain, ("__zdebug_frame", vec![])]);
    assert!(found(&file).is_none());
}

#[test]
fn corrupt_stream_gives_nothing() {
    let file = mach_o(&[("__zdebug_frame", zdebug(9, b"no stream"))]);
    assert!(found(&file).is_none());
}

#[test]
fn decompression_stops_when_there_is_no_room() {
    let file = mach_o(&[("__zdebug_frame", zdebug(4, &zlib(CONTENT)))]);
    let section = found(&file).unwrap();
    assert!(section.len() >= 4);
    assert!(CONTENT.starts_with(section.deref()));
}

#[test]
fn files_without_the_section() {
    assert!(found(&mach_o(&[("__text", vec![0x90; 5])])).is_none());
    assert!(found(b"this is no object file at all").is_none());
}

#[test]
fn compression_header_of_the_file_format() {
    let stream = zlib(CONTENT);
    let file = elf_with_compressed("__debug_frame", 1, CONTENT.len() as u64, &stream);
    let section = found(&file).unwrap();
    assert!(matches!(section, UnwindSectionBytes::Allocated(_)));
    assert_eq!(section.deref(), CONTENT);
    // A Zstandard stream and an unknown format.
    for format in [2, 99] {
        let file = elf_with_compressed("__debug_frame", format, CONTENT.len() as u64, &stream);
        assert!(found(&file).is_none());
    }
}

#[test]
fn header_that_asks_for_too_much_is_unsound() {
    let file = elf_with_compressed("__debug_frame", 1, u64::MAX, &zlib(CONTENT));
    assert!(try_get_debug_frame(mapped(&file)).is_none());
}

#[test]
fn range_of_a_compressed_section() {
    let data = zdebug(0x0102_0304, b"abc");
    let section = ObjectSection { file_range: Some((100, 15)), data: Some(&data) };
    assert_eq!(
        zdebug_frame_range(&section),
        Some(CompressedFileRange {
            format: CompressionFormat::Zlib,
            offset: 112,
            compressed_size: 3,
            uncompressed_size: 0x0102_0304,
        })
    );
    assert_eq!(zdebug_frame_range(&ObjectSection { file_range: None, data: Some(&data) }), None);
    let unread = ObjectSection { file_range: Some((100, 15)), data: None };
    assert_eq!(zdebug_frame_range(&unread), None);
    let short = ObjectSection { file_range: Some((100, 11)), data: Some(&data[..11]) };
    assert_eq!(zdebug_frame_range(&short), None);
    let other = ObjectSection { file_range: Some((100, 15)), data: Some(b"ZLIB\0\0\0\x01abcdefg") };
    assert_eq!(zdebug_frame_range(&other), None);
}

#[test]
fn stored_sections() {
    let range = |format, offset, uncompressed_size| CompressedFileRange {
        format,
        offset,
        compressed_size: uncompressed_size,
        uncompressed_size,
    };
    let plain = range(CompressionFormat::Uncompressed, 2, 3);
    let section = read_stored_section(mapped(b"0123456789"), plain).unwrap();
    assert_eq!(section.deref(), b"234");
    let outside = range(CompressionFormat::Uncompressed, 8, 3);
    assert!(read_stored_section(mapped(b"0123456789"), outside).is_none());
    for format in [
        CompressionFormat::Unknown,
        CompressionFormat::Zstandard,
        CompressionFormat::Other,
    ] {
        assert!(read_stored_section(mapped(b"0123456789"), range(format, 2, 3)).is_none());
    }
}
