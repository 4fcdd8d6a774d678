use framehop::Unwinder as _;
use fxprof_processed_profile::{
    CategoryHandle, CpuDelta, Frame, FrameFlags, FrameInfo, LibraryHandle, Profile,
    ReferenceTimestamp, SamplingInterval, Timestamp,
};
use serde_json::Value;
use std::ops::Deref;
use task_profiler::library::{
    CodeId, DebugId, DyldInfo, LibMappingOp, MappedLib, MappedSections, Modification,
    UnwindSectionInfo,
};
use task_profiler::loaded_libs::{LoadedLibs, TEXT_PAGE_SIZE};
use task_profiler::section_bytes::{UnwindSectionBytes, VmSubData};
use task_profiler::unwinder::{ModuleSvmaInfo, TextByteData};

const BASE_SVMA: u64 = 0x1_0000_0000;
const BASE_AVMA: u64 = 0x7_0000_0000;

fn profile() -> Profile {
    Profile::new(
        "test",
        ReferenceTimestamp::from_millis_since_unix_epoch(0.0),
        SamplingInterval::from_millis(1),
    )
}

fn lib(file: &str, base_avma: u64) -> DyldInfo {
    DyldInfo {
        file: file.to_string(),
        base_avma,
        vmsize: 0x10_0000,
        svma_info: ModuleSvmaInfo {
            base_svma: BASE_SVMA,
            text: Some(BASE_SVMA + 0x1000..BASE_SVMA + 0x3000),
            text_env: None,
            stubs: None,
            stub_helper: None,
            eh_frame: None,
            eh_frame_hdr: None,
            got: None,
        },
        unwind_sections: UnwindSectionInfo {
            unwind_info_section: Some((BASE_SVMA + 0x5000, 0x20)),
            eh_frame_section: None,
            text_segment: Some((BASE_SVMA, 0x4000)),
        },
        debug_id: Some(DebugId { uuid: 0x0123_4567_89ab_cdef, appendix: 0 }),
        code_id: None,
        arch: Some("arm64"),
        is_executable: false,
    }
}

fn nothing_mapped() -> MappedSections {
    MappedSections { unwind_info: None, eh_frame: None, text: None, debug_frame: None }
}

fn added(lib: DyldInfo) -> Modification {
    Modification::Added(MappedLib { lib, sections: nothing_mapped() })
}

/// The libraries in `handles` as the profile shows them.
fn shown(profile: &mut Profile, handles: &[LibraryHandle]) -> Vec<Value> {
    let start = Timestamp::from_nanos_since_reference(0);
    let process = profile.add_process("shown", 1, start);
    let thread = profile.add_thread(process, 1, start, true);
    for handle in handles {
        let frame = FrameInfo {
            frame: Frame::RelativeAddressFromInstructionPointer(*handle, 0x10),
            category_pair: CategoryHandle::OTHER.into(),
            flags: FrameFlags::empty(),
        };
        profile.add_sample(thread, start, std::iter::once(frame), CpuDelta::ZERO, 1);
    }
    let value = serde_json::to_value(&*profile).unwrap();
    value["libs"].as_array().unwrap().clone()
}

fn handles(ops: &[(u64, LibMappingOp)]) -> Vec<LibraryHandle> {
    ops.iter()
        .filter_map(|(_, op)| match op {
            LibMappingOp::Add(add) => Some(add.info.lib_handle),
            LibMappingOp::Remove(_) => None,
        })
        .collect()
}

#[test]
fn added_library_is_written_down() {
    let mut profile = profile();
    let mut libs = LoadedLibs::new();
    assert_eq!(libs.unwinder.native.max_known_code_address(), 0);
    let mut info = lib("/usr/lib/libfoo.dylib", BASE_AVMA);
    info.code_id = Some(CodeId::MachoUuid(0x00ab_cdef));
    libs.process_lib_modifications(77, vec![added(info)], &mut profile);
    assert_eq!(libs.unwinder.native.max_known_code_address(), BASE_AVMA + 0x10_0000);
    let ops = libs.lib_mapping_ops.into_ops();
    assert_eq!(ops.len(), 1);
    assert_eq!(ops[0].0, 77);
    match ops[0].1 {
        LibMappingOp::Add(add) => {
            assert_eq!(add.start_avma, BASE_AVMA);
            assert_eq!(add.end_avma, BASE_AVMA + 0x10_0000);
            assert_eq!(add.relative_address_at_start, 0);
        }
        LibMappingOp::Remove(_) => panic!("removed"),
    }
    let libs = shown(&mut profile, &handles(&ops));
    assert_eq!(libs.len(), 1);
    assert_eq!(libs[0]["name"], "libfoo.dylib");
    assert_eq!(libs[0]["debugName"], "libfoo.dylib");
    assert_eq!(libs[0]["path"], "/usr/lib/libfoo.dylib");
    assert_eq!(libs[0]["debugPath"], "/usr/lib/libfoo.dylib");
    assert_eq!(libs[0]["breakpadId"], "00000000000000000123456789ABCDEF0");
    assert_eq!(libs[0]["codeId"], "00000000000000000000000000ABCDEF");
    assert_eq!(libs[0]["arch"], "arm64");
}

#[test]
fn code_ids_are_written_in_hexadecimal() {
    let ids = [
        (CodeId::PeCodeId(0x5ab3_8077, 0x9000), "5AB380779000"),
        (CodeId::PeCodeId(0xab, 0xcd), "000000ABcd"),
        (CodeId::PeCodeId(0, 0), "000000000"),
        (CodeId::MachoUuid(u128::MAX), "FFFFFFFFFFFFFFFFFFFFFFFFFFFFFFFF"),
        (CodeId::ElfBuildId(vec![0x0a, 0xff, 0x10]), "0aff10"),
        (CodeId::ElfBuildId(vec![]), ""),
    ];
    for (id, text) in ids {
        let mut profile = profile();
        let mut libs = LoadedLibs::new();
        let mut info = lib("/lib", BASE_AVMA);
        info.code_id = Some(id);
        info.arch = None;
        libs.process_lib_modifications(0, vec![added(info)], &mut profile);
        let ops = libs.lib_mapping_ops.into_ops();
        let libs = shown(&mut profile, &handles(&ops));
        assert_eq!(libs[0]["codeId"], text);
        assert_eq!(libs[0]["arch"], Value::Null);
    }
}

#[test]
fn library_that_is_added_again_is_shown_once() {
    let mut profile = profile();
    let mut libs = LoadedLibs::new();
    let changes = vec![
        added(lib("/a", BASE_AVMA)),
        added(lib("/b", BASE_AVMA + 0x20_0000)),
        added(lib("/a", BASE_AVMA + 0x40_0000)),
    ];
    libs.process_lib_modifications(5, changes, &mut profile);
    let ops = libs.lib_mapping_ops.into_ops();
    let handles = handles(&ops);
    assert_eq!(handles.len(), 3);
    assert_eq!(handles[0], handles[2]);
    assert_ne!(handles[0], handles[1]);
    let libs = shown(&mut profile, &handles);
    assert_eq!(libs.len(), 2);
    assert_eq!(libs[0]["name"], "a");
    assert_eq!(libs[1]["name"], "b");
}

#[test]
fn removed_library_leaves_the_unwinder() {
    let mut profile = profile();
    let mut libs = LoadedLibs::new();
    libs.process_lib_modifications(1, vec![added(lib("/a", BASE_AVMA))], &mut profile);
    let changes = vec![
        added(lib("/b", BASE_AVMA + 0x20_0000)),
        Modification::Removed(lib("/b", BASE_AVMA + 0x20_0000)),
    ];
    libs.process_lib_modifications(2, changes, &mut profile);
    assert_eq!(libs.unwinder.native.max_known_code_address(), BASE_AVMA + 0x10_0000);
    let changes = vec![
        Modification::Removed(lib("/nowhere", 0x1234)),
        Modification::Removed(lib("/a", BASE_AVMA)),
    ];
    libs.process_lib_modifications(3, changes, &mut profile);
    assert_eq!(libs.unwinder.native.max_known_code_address(), 0);
    let ops = libs.lib_mapping_ops.into_ops();
    let times: Vec<u64> = ops.iter().map(|(time, _)| *time).collect();
    assert_eq!(times, vec![1, 2, 2, 3, 3]);
    let removed: Vec<u64> = ops
        .iter()
        .filter_map(|(_, op)| match op {
            LibMappingOp::Remove(remove) => Some(remove.start_avma),
            LibMappingOp::Add(_) => None,
        })
        .collect();
    assert_eq!(removed, vec![BASE_AVMA + 0x20_0000, 0x1234, BASE_AVMA]);
}

#[test]
fn library_without_a_file_name_is_only_unwound() {
    let mut profile = profile();
    let mut libs = LoadedLibs::new();
    let mut info = lib("/", BASE_AVMA);
    info.debug_id = None;
    libs.process_lib_modifications(1, vec![added(info)], &mut profile);
    assert_eq!(libs.unwinder.native.max_known_code_address(), BASE_AVMA + 0x10_0000);
    assert!(libs.lib_mapping_ops.into_ops().is_empty());
}

#[test]
fn debug_id_is_made_of_the_machine_code() {
    let mut libs = LoadedLibs::new();
    let mut info = lib("/a", BASE_AVMA);
    info.debug_id = None;
    let mut text = vec![0; 0x4000];
    for i in 0..16 {
        text[0x1000 + i] = i as u8 + 1;
    }
    let sections = MappedSections { text: Some(VmSubData::new(text)), ..nothing_mapped() };
    libs.add_lib_to_unwinder_and_ensure_debug_id(&mut info, sections);
    let id = DebugId { uuid: 0x0403_0201_0605_0807_090a_0b0c_0d0e_0f10, appendix: 0 };
    assert_eq!(info.debug_id, Some(id));
}

#[test]
fn debug_id_takes_the_whole_page_in() {
    let mut libs = LoadedLibs::new();
    let mut info = lib("/a", BASE_AVMA);
    info.debug_id = None;
    let mut text = vec![0; 0x4000];
    for i in 0..16 {
        text[0x1000 + i] = i as u8 + 1;
        text[0x1ff0 + i] = 0xff;
        // Before and behind the page.
        text[0x0ff0 + i] = 0x55;
        text[0x2000 + i] = 0x55;
    }
    let sections = MappedSections { text: Some(VmSubData::new(text)), ..nothing_mapped() };
    libs.add_lib_to_unwinder_and_ensure_debug_id(&mut info, sections);
    let uuid: u128 = 0x0403_0201_0605_0807_090a_0b0c_0d0e_0f10;
    assert_eq!(info.debug_id, Some(DebugId { uuid: !uuid, appendix: 0 }));
}

#[test]
fn changes_can_be_split() {
    let changes = || {
        vec![
            added(lib("/a", BASE_AVMA)),
            added(lib("/b", BASE_AVMA + 0x20_0000)),
            Modification::Removed(lib("/a", BASE_AVMA)),
            added(lib("/a", BASE_AVMA + 0x40_0000)),
        ]
    };
    let run = |at: usize| {
        let mut profile = profile();
        let mut libs = LoadedLibs::new();
        let mut first = changes();
        let second = first.split_off(at);
        libs.process_lib_modifications(7, first, &mut profile);
        libs.process_lib_modifications(7, second, &mut profile);
        let end = libs.unwinder.native.max_known_code_address();
        let ops = libs.lib_mapping_ops.into_ops();
        let shown = shown(&mut profile, &handles(&ops));
        (end, format!("{:?}", ops), shown)
    };
    for at in 0..4 {
        assert_eq!(run(at), run(4));
    }
}

#[test]
fn debug_id_of_its_own_is_kept() {
    let mut libs = LoadedLibs::new();
    let mut info = lib("/a", BASE_AVMA);
    let text = Some(VmSubData::new(vec![7; 0x4000]));
    let sections = MappedSections { text, ..nothing_mapped() };
    libs.add_lib_to_unwinder_and_ensure_debug_id(&mut info, sections);
    assert_eq!(info.debug_id, Some(DebugId { uuid: 0x0123_4567_89ab_cdef, appendix: 0 }));
}

#[test]
fn short_machine_code_gives_the_nil_debug_id() {
    let mut libs = LoadedLibs::new();
    let mut info = lib("/a", BASE_AVMA);
    info.debug_id = None;
    let text = Some(VmSubData::new(vec![7; 0x1fff]));
    let sections = MappedSections { text, ..nothing_mapped() };
    libs.add_lib_to_unwinder_and_ensure_debug_id(&mut info, sections);
    assert_eq!(info.debug_id, Some(DebugId::nil()));
}

#[test]
fn unknown_machine_code_gives_no_debug_id() {
    let mut libs = LoadedLibs::new();
    let mut info = lib("/a", BASE_AVMA);
    info.debug_id = None;
    libs.add_lib_to_unwinder_and_ensure_debug_id(&mut info, nothing_mapped());
    assert_eq!(info.debug_id, None);
    info.svma_info.text = None;
    let text = Some(VmSubData::new(vec![7; 0x4000]));
    let sections = MappedSections { text, ..nothing_mapped() };
    libs.add_lib_to_unwinder_and_ensure_debug_id(&mut info, sections);
    assert_eq!(info.debug_id, None);
}

#[test]
fn all_kinds_of_unwind_information_are_taken_in() {
    let mut libs = LoadedLibs::new();
    let bytes = |b: u8| Some(VmSubData::new(vec![b; 4]));
    let all = [
        MappedSections { unwind_info: bytes(1), eh_frame: bytes(2), ..nothing_mapped() },
        MappedSections { unwind_info: bytes(1), ..nothing_mapped() },
        MappedSections { eh_frame: bytes(2), ..nothing_mapped() },
        MappedSections {
            debug_frame: Some(UnwindSectionBytes::Allocated(vec![3; 4])),
            ..nothing_mapped()
        },
        nothing_mapped(),
    ];
    let needed = [false, false, false, true, true];
    for (i, sections) in all.into_iter().enumerate() {
        assert_eq!(sections.needs_debug_frame(), needed[i]);
        let mut info = lib("/a", BASE_AVMA + 0x20_0000 * i as u64);
        libs.add_lib_to_unwinder_and_ensure_debug_id(&mut info, sections);
    }
    let last = BASE_AVMA + 0x20_0000 * 4 + 0x10_0000;
    assert_eq!(libs.unwinder.native.max_known_code_address(), last);
}

#[test]
fn sections_are_found_in_the_memory_of_the_task() {
    let mut info = lib("/a", BASE_AVMA);
    assert!(info.has_section_addresses());
    let addresses = info.section_addresses();
    assert_eq!(addresses.unwind_info, Some((BASE_AVMA + 0x5000, 0x20)));
    assert_eq!(addresses.eh_frame, None);
    assert_eq!(addresses.text, Some((BASE_AVMA, 0x4000)));
    info.unwind_sections.eh_frame_section = Some((BASE_SVMA - 1, 1));
    assert!(!info.has_section_addresses());
    info.unwind_sections.eh_frame_section = Some((u64::MAX, 1));
    assert!(!info.has_section_addresses());
}

#[test]
fn libraries_that_cannot_be_added() {
    let addable = |lib: DyldInfo, sections| MappedLib { lib, sections }.is_addable();
    let with_text = || MappedSections {
        text: Some(VmSubData::new(vec![7; 0x4000])),
        ..nothing_mapped()
    };
    assert!(addable(lib("/a", BASE_AVMA), nothing_mapped()));
    assert!(addable(lib("/a", BASE_AVMA), with_text()));
    // No debug identifier, and nothing to make one of.
    let mut info = lib("/a", BASE_AVMA);
    info.debug_id = None;
    assert!(!addable(info, nothing_mapped()));
    // One can be made of the machine code.
    let mut info = lib("/a", BASE_AVMA);
    info.debug_id = None;
    assert!(addable(info, with_text()));
    // The profile does not show it.
    let mut info = lib("..", BASE_AVMA);
    info.debug_id = None;
    assert!(addable(info, nothing_mapped()));
    // Its memory has no end.
    let mut info = lib("/a", BASE_AVMA);
    info.vmsize = u64::MAX;
    assert!(!addable(info, nothing_mapped()));
    // Its machine code is before its start.
    let mut info = lib("/a", BASE_AVMA);
    info.unwind_sections.text_segment = Some((BASE_SVMA - 1, 1));
    assert!(!addable(info, with_text()));
}

#[test]
fn bytes_of_the_machine_code() {
    let bytes = UnwindSectionBytes::Allocated(vec![0, 1, 2, 3, 4]);
    let text = TextByteData { bytes, avma_range: 100..105 };
    assert_eq!(text.get_bytes(101, 103), Some([1u8, 2].as_slice()));
    assert_eq!(text.get_bytes(100, 105).map(|b| b.len()), Some(5));
    assert_eq!(text.get_bytes(105, 105).map(|b| b.len()), Some(0));
    assert_eq!(text.get_bytes(99, 103), None);
    assert_eq!(text.get_bytes(101, 106), None);
    assert_eq!(text.get_bytes(103, 101), None);
    assert_eq!(text.bytes.deref().len(), 5);
    assert_eq!(TEXT_PAGE_SIZE, 4096);
}
