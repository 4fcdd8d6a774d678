//! What becomes of the libraries of a task, said field by field.
use crate::library::{
    code_id_text, text_page_debug_id, text_view, CodeId, CodeIdModel, DebugId, DyldInfo,
    LibMappingAdd, LibMappingOp, LibMappingRemove, LibOpModel, LibraryInfo, MappedLib,
    MappedSections, Modification,
};
use crate::loaded_libs::{
    changes_are_addable, lib_debug_id, lib_has_addresses, lib_is_addable, lib_module, lib_record,
    modules_after, modules_step, op_for, ops_for, profile_after, profile_step,
};
use crate::paths::path_file_name;
use crate::profile::{library_index, LibraryRecord, ProfileModel};
use crate::unwinder::{
    text_bytes, Module, ModuleModel, ModuleUnwindData, TextByteData, TextModel, UnwindDataModel,
};
use vstd::multiset::Multiset;
use vstd::prelude::*;

verus! {

broadcast use vstd::multiset::group_multiset_axioms;

/// The unwinder gets every piece of unwind information that could be read from the memory of the
/// task: compact unwind information with `eh_frame` beside it, or `eh_frame` alone. Only where
/// there is neither, the `debug_frame` section of the file takes their place.
pub proof fn law_unwind_information_is_kept(lib: DyldInfo, sections: MappedSections)
    ensures
        sections.unwind_info matches Some(unwind_info) ==> (lib_module(
            lib,
            sections,
        ).unwind_data matches UnwindDataModel::CompactUnwindInfoAndEhFrame(first, second)
            && first == unwind_info@ && (sections.eh_frame matches Some(eh_frame) ==> second
            == Some(eh_frame@)) && (sections.eh_frame is None ==> second is None)),
        sections.unwind_info is None ==> (sections.eh_frame matches Some(eh_frame) ==> (lib_module(
            lib,
            sections,
        ).unwind_data matches UnwindDataModel::EhFrame(bytes) && bytes == eh_frame@)),
        sections.unwind_info is None && sections.eh_frame is None ==> (
        sections.debug_frame matches Some(debug_frame) ==> (lib_module(
            lib,
            sections,
        ).unwind_data matches UnwindDataModel::DebugFrame(bytes) && bytes == debug_frame@)),
        sections.unwind_info is None && sections.eh_frame is None && sections.debug_frame is None
            ==> lib_module(lib, sections).unwind_data is Nothing,
{
}

/// The file of a library is consulted if and only if nothing in the memory of the task tells how
/// to unwind it.
pub proof fn law_file_is_consulted_last(sections: MappedSections)
    ensures
        sections.lacks_unwind_info() <==> !(sections.unwind_info is Some || sections.eh_frame
            is Some),
{
}

/// The module of a library takes up exactly the memory of the library, under the path of its file.
/// Its machine code is what was read, at the place in the memory of the task that is as far from
/// the start of the library as its file states.
pub proof fn law_module_covers_the_library(lib: DyldInfo, sections: MappedSections)
    requires
        lib_has_addresses(lib, sections),
    ensures
        lib_module(lib, sections).name == lib.file@,
        lib_module(lib, sections).avma_range.start == lib.base_avma,
        lib_module(lib, sections).avma_range.end - lib_module(lib, sections).avma_range.start
            == lib.vmsize,
        lib_module(lib, sections).base_avma == lib.base_avma,
        lib_module(lib, sections).svma_info == lib.svma_info,
        sections.text is None ==> lib_module(lib, sections).text_data is None,
        sections.text matches Some(data) ==> {
            let segment = lib.unwind_sections.text_segment->0;
            let text = lib_module(lib, sections).text_data->0;
            &&& lib_module(lib, sections).text_data is Some
            &&& text.bytes == data@
            &&& text.avma_range.start - lib.base_avma == segment.0 - lib.svma_info.base_svma
            &&& text.avma_range.end - text.avma_range.start == segment.1
        },
{
}

/// The debug identifier of a library: its own one stays. Else, where the machine code was read and
/// it is known where the code starts, it is made of the 4096 bytes from that start on; where these
/// were not all read, it consists of zeros. Where nothing is known, there is none.
pub proof fn law_debug_id_of_a_library(lib: DyldInfo, sections: MappedSections)
    requires
        lib_has_addresses(lib, sections),
    ensures
        lib.debug_id is Some ==> lib_debug_id(lib, sections) == lib.debug_id,
        lib.debug_id is None && (sections.text is None || lib.svma_info.text is None)
            ==> lib_debug_id(lib, sections) is None,
        lib.debug_id is None && sections.text is Some && lib.svma_info.text is Some ==> {
            let data = (sections.text->0)@;
            let code_start = (lib.svma_info.text->0).start;
            let from = code_start - (lib.unwind_sections.text_segment->0).0;
            let end_avma = code_start - lib.svma_info.base_svma + lib.base_avma + 4096;
            if 0 <= from && from + 4096 <= data.len() && end_avma <= u64::MAX {
                exists|page: Seq<u8>|
                    {
                        &&& page.len() == 4096
                        &&& forall|i: int| 0 <= i < 4096 ==> page[i] == data[from + i]
                        &&& lib_debug_id(lib, sections) == Some(
                            #[trigger] text_page_debug_id(page, true),
                        )
                    }
            } else {
                lib_debug_id(lib, sections) == Some(DebugId { uuid: 0, appendix: 0 })
            }
        },
{
    if lib.debug_id is None && sections.text is Some && lib.svma_info.text is Some {
        let data = (sections.text->0)@;
        let code_start = (lib.svma_info.text->0).start;
        let from = code_start - (lib.unwind_sections.text_segment->0).0;
        let end_avma = code_start - lib.svma_info.base_svma + lib.base_avma + 4096;
        if 0 <= from && from + 4096 <= data.len() && end_avma <= u64::MAX {
            let page = data.subrange(from, from + 4096);
            assert(lib_debug_id(lib, sections) == Some(text_page_debug_id(page, true)));
        }
    }
}

/// Which libraries can be added: those whose memory has an end, whose machine code, if it was read,
/// has a place in the address space, and which have a debug identifier or something to make one of,
/// unless the profile does not show them.
pub proof fn law_which_libraries_can_be_added(lib: DyldInfo, sections: MappedSections)
    ensures
        lib_has_addresses(lib, sections) <==> {
            &&& lib.base_avma + lib.vmsize <= u64::MAX
            &&& sections.text is Some ==> {
                &&& lib.unwind_sections.text_segment matches Some((svma, size))
                &&& svma >= lib.svma_info.base_svma
                &&& svma - lib.svma_info.base_svma + lib.base_avma + size <= u64::MAX
            }
            &&& sections.text is Some && lib.debug_id is None ==> (
            lib.svma_info.text matches Some(text) ==> text.start >= lib.svma_info.base_svma
                && text.start - lib.svma_info.base_svma + lib.base_avma <= u64::MAX)
        },
        lib_is_addable(lib, sections) <==> {
            &&& lib_has_addresses(lib, sections)
            &&& {
                ||| path_file_name(lib.file@) is None
                ||| lib.debug_id is Some
                ||| sections.text is Some && lib.svma_info.text is Some
            }
        },
{
}

/// Changes can be taken in if and only if every library that is added can be.
pub proof fn law_which_changes_can_be_taken_in(changes: Seq<Modification>)
    ensures
        changes_are_addable(changes) <==> forall|added: MappedLib|
            #![trigger changes.contains(Modification::Added(added))]
            changes.contains(Modification::Added(added)) ==> lib_is_addable(
                added.lib,
                added.sections,
            ),
{
    if changes_are_addable(changes) {
        assert forall|added: MappedLib|
            #![trigger changes.contains(Modification::Added(added))]
            changes.contains(Modification::Added(added)) implies lib_is_addable(
            added.lib,
            added.sections,
        ) by {
            let i = choose|i: int|
                0 <= i < changes.len() && changes[i] == Modification::Added(added);
            assert(changes[i] matches Modification::Added(same) ==> same == added);
        }
    }
    if forall|added: MappedLib|
        #![trigger changes.contains(Modification::Added(added))]
        changes.contains(Modification::Added(added)) ==> lib_is_addable(added.lib, added.sections) {
        assert forall|i: int| 0 <= i < changes.len() implies (
        #[trigger] changes[i] matches Modification::Added(added) ==> lib_is_addable(
            added.lib,
            added.sections,
        )) by {
            if let Modification::Added(added) = changes[i] {
                assert(changes.contains(Modification::Added(added)));
            }
        }
    }
}

/// Whether `record` is what the profile shows of a library: the name of its file, the path of the
/// file, the debug identifier, the code identifier as text and the architecture.
pub open spec fn shows(record: LibraryRecord, added: MappedLib) -> bool {
    &&& Some(record.name) == path_file_name(added.lib.file@)
    &&& record.debug_name == record.name
    &&& record.path == added.lib.file@
    &&& record.debug_path == added.lib.file@
    &&& Some(record.debug_id) == lib_debug_id(added.lib, added.sections)
    &&& record.code_id is Some <==> added.lib.code_id is Some
    &&& added.lib.code_id matches Some(id) ==> record.code_id == Some(code_id_text(id@))
    &&& record.arch is Some <==> added.lib.arch is Some
    &&& added.lib.arch matches Some(arch) ==> record.arch == Some(arch@)
    &&& record.is_plain
}

/// A library with a file name that is added is written down once, at the given time, with exactly
/// the memory that its module takes up in the unwinder. The entry leads to the place in the profile
/// at which the library is shown. The profile keeps the libraries that it has, and grows by one if
/// the library was not among them. The unwinder gets the module of the library.
pub proof fn law_added_library_is_written_down(
    profile: ProfileModel,
    now_mono: u64,
    before: Multiset<ModuleModel>,
    added: MappedLib,
    after: Multiset<ModuleModel>,
)
    requires
        lib_is_addable(added.lib, added.sections),
        path_file_name(added.lib.file@) is Some,
    ensures
        ({
            let changes = seq![Modification::Added(added)];
            let ops = ops_for(profile, now_mono, changes);
            let shown = profile_after(profile, changes);
            &&& ops.len() == 1
            &&& ops[0].0 == now_mono
            &&& ops[0].1 matches LibOpModel::Add {
                start_avma,
                end_avma,
                relative_address_at_start,
                library,
            }
            &&& start_avma == added.lib.base_avma
            &&& end_avma - start_avma == added.lib.vmsize
            &&& relative_address_at_start == 0
            &&& start_avma == lib_module(added.lib, added.sections).avma_range.start
            &&& end_avma == lib_module(added.lib, added.sections).avma_range.end
            &&& library < shown.libraries.len()
            &&& shows(shown.libraries[library as int], added)
            &&& forall|i: int|
                0 <= i < library ==> shown.libraries[i] != shown.libraries[library as int]
            &&& shown.libraries.len() == profile.libraries.len() + if profile.libraries.contains(
                shown.libraries[library as int],
            ) {
                0int
            } else {
                1int
            }
            &&& forall|i: int|
                0 <= i < profile.libraries.len() ==> shown.libraries[i] == profile.libraries[i]
            &&& shown.processes == profile.processes
            &&& shown.threads == profile.threads
        }),
        modules_after(before, seq![Modification::Added(added)], after) <==> after == before.insert(
            lib_module(added.lib, added.sections),
        ),
{
    lemma_one_change(profile, now_mono, before, Modification::Added(added), after);
    let shown = profile_after(profile, seq![Modification::Added(added)]);
    let record = lib_record(
        added.lib,
        lib_debug_id(added.lib, added.sections)->0,
        path_file_name(added.lib.file@)->0,
    );
    assert(shown.libraries.contains(record)) by {
        if !profile.libraries.contains(record) {
            assert(shown.libraries[profile.libraries.len() as int] == record);
        }
    }
    shown.libraries.index_of_first_ensures(record);
}

/// A library without a file name that is added is not written down or shown; only the unwinder
/// gets its module.
pub proof fn law_library_without_a_name_is_only_unwound(
    profile: ProfileModel,
    now_mono: u64,
    before: Multiset<ModuleModel>,
    added: MappedLib,
    after: Multiset<ModuleModel>,
)
    requires
        path_file_name(added.lib.file@) is None,
    ensures
        ops_for(profile, now_mono, seq![Modification::Added(added)]).len() == 0,
        profile_after(profile, seq![Modification::Added(added)]) == profile,
        modules_after(before, seq![Modification::Added(added)], after) <==> after == before.insert(
            lib_module(added.lib, added.sections),
        ),
{
    lemma_one_change(profile, now_mono, before, Modification::Added(added), after);
}

/// A library that is removed is written down once, at the given time, with its address. The profile
/// stays as it is. One module that starts at the address of the library leaves the unwinder, if one
/// does; nothing else changes there.
pub proof fn law_removed_library_is_written_down(
    profile: ProfileModel,
    now_mono: u64,
    before: Multiset<ModuleModel>,
    lib: DyldInfo,
    after: Multiset<ModuleModel>,
)
    ensures
        ({
            let ops = ops_for(profile, now_mono, seq![Modification::Removed(lib)]);
            &&& ops.len() == 1
            &&& ops[0].0 == now_mono
            &&& ops[0].1 matches LibOpModel::Remove { start_avma } && start_avma == lib.base_avma
        }),
        profile_after(profile, seq![Modification::Removed(lib)]) == profile,
        modules_after(before, seq![Modification::Removed(lib)], after) <==> {
            ||| exists|module: ModuleModel| #[trigger]
                before.contains(module) && module.avma_range.start == lib.base_avma && after
                    == before.remove(module)
            ||| after == before && forall|module: ModuleModel| #[trigger]
                before.contains(module) ==> module.avma_range.start != lib.base_avma
        },
{
    lemma_one_change(profile, now_mono, before, Modification::Removed(lib), after);
}

proof fn lemma_one_change(
    profile: ProfileModel,
    now_mono: u64,
    before: Multiset<ModuleModel>,
    change: Modification,
    after: Multiset<ModuleModel>,
)
    ensures
        profile_after(profile, seq![change]) == profile_step(profile, change),
        ops_for(profile, now_mono, seq![change]) == match op_for(
            profile,
            change,
        ) {
            Some(op) => seq![(now_mono, op)],
            None => seq![],
        },
        modules_after(before, seq![change], after) <==> modules_step(before, change, after),
{
    let changes = seq![change];
    let front = changes.drop_last();
    assert(front =~= Seq::<Modification>::empty());
    assert(changes.last() == change);
    assert(profile_after(profile, front) == profile);
    assert(ops_for(profile, now_mono, front) =~= seq![]);
    assert(ops_for(profile, now_mono, changes) =~= match op_for(
        profile,
        change,
    ) {
        Some(op) => seq![(now_mono, op)],
        None => seq![],
    });
    assert(modules_after(before, front, before));
    if modules_after(before, changes, after) {
        let between = choose|between: Multiset<ModuleModel>|
            modules_after(before, front, between) && #[trigger] modules_step(
                between,
                changes.last(),
                after,
            );
        assert(between == before);
    }
}

/// The sections that unwinding reads are looked for as far from the start of the library in the
/// memory of the task as the file states, and with the size that it states. They can be looked for
/// if and only if all of these addresses exist.
pub proof fn law_sections_are_found_in_memory(lib: DyldInfo, section: Option<(u64, u64)>)
    ensures
        lib.section_relocates(section) <==> (section matches Some((svma, _)) ==> svma
            >= lib.svma_info.base_svma && svma - lib.svma_info.base_svma + lib.base_avma
            <= u64::MAX),
        section is None <==> lib.relocated_section(section) is None,
        lib.section_relocates(section) ==> (section matches Some((svma, size)) ==> {
            &&& lib.relocated_section(section) matches Some((avma, same_size))
            &&& avma - lib.base_avma == svma - lib.svma_info.base_svma
            &&& same_size == size
        }),
        lib.sections_relocate() <==> lib.section_relocates(lib.unwind_sections.unwind_info_section)
            && lib.section_relocates(lib.unwind_sections.eh_frame_section)
            && lib.section_relocates(lib.unwind_sections.text_segment),
{
}

/// Bytes of the machine code are handed out if and only if all of them are there, each from its
/// address.
pub proof fn law_machine_code_by_address(text: TextModel, start: u64, end: u64)
    ensures
        text_bytes(text, start, end) is Some <==> text.avma_range.start <= start <= end && end
            - text.avma_range.start <= text.bytes.len(),
        text_bytes(text, start, end) matches Some(bytes) ==> bytes.len() == end - start && forall|
            i: int,
        |
            0 <= i < bytes.len() ==> bytes[i] == text.bytes[start - text.avma_range.start + i],
{
}

/// An entry about the memory of a task stands for what its fields say.
pub proof fn law_entries_mean_their_fields(add: LibMappingAdd, remove: LibMappingRemove)
    ensures
        LibMappingOp::Add(add)@ == (LibOpModel::Add {
            start_avma: add.start_avma,
            end_avma: add.end_avma,
            relative_address_at_start: add.relative_address_at_start,
            library: library_index(add.info.lib_handle),
        }),
        LibMappingOp::Remove(remove)@ == (LibOpModel::Remove { start_avma: remove.start_avma }),
{
}

/// What the profile is told about a library stands for what its fields say.
pub proof fn law_library_info_means_its_fields(info: LibraryInfo, text: String)
    ensures
        info@.name == info.name@,
        info@.debug_name == info.debug_name@,
        info@.path == info.path@,
        info@.debug_path == info.debug_path@,
        info@.debug_id == info.debug_id,
        info.code_id is None ==> info@.code_id is None,
        info.code_id matches Some(id) ==> info@.code_id == Some(id@),
        info.arch is None ==> info@.arch is None,
        info.arch matches Some(arch) ==> info@.arch == Some(arch@),
        info@.is_plain,
        text_view(Some(text)) == Some(text@),
        text_view(None) is None,
{
}

/// A code identifier stands for what it holds.
pub proof fn law_code_id_means_its_fields(id: CodeId)
    ensures
        match id {
            CodeId::PeCodeId(timestamp, image_size) => id@ == CodeIdModel::PeCodeId(
                timestamp,
                image_size,
            ),
            CodeId::MachoUuid(uuid) => id@ == CodeIdModel::MachoUuid(uuid),
            CodeId::ElfBuildId(bytes) => id@ == CodeIdModel::ElfBuildId(bytes@),
        },
{
}

/// A module stands for what its fields say, and so do its unwind information and its machine code.
pub proof fn law_module_means_its_fields(module: Module, data: ModuleUnwindData, text: TextByteData)
    ensures
        module@.name == module.name@,
        module@.avma_range == module.avma_range,
        module@.base_avma == module.base_avma,
        module@.svma_info == module.svma_info,
        module@.unwind_data == module.unwind_data@,
        module.text_data is None ==> module@.text_data is None,
        module.text_data matches Some(text) ==> module@.text_data == Some(text@),
        text@.bytes == text.bytes@,
        text@.avma_range == text.avma_range,
        match data {
            ModuleUnwindData::CompactUnwindInfoAndEhFrame(first, None) => data@
                == UnwindDataModel::CompactUnwindInfoAndEhFrame(first@, None),
            ModuleUnwindData::CompactUnwindInfoAndEhFrame(first, Some(second)) => data@
                == UnwindDataModel::CompactUnwindInfoAndEhFrame(first@, Some(second@)),
            ModuleUnwindData::EhFrame(bytes) => data@ == UnwindDataModel::EhFrame(bytes@),
            ModuleUnwindData::DebugFrame(bytes) => data@ == UnwindDataModel::DebugFrame(bytes@),
            ModuleUnwindData::Nothing => data@ is Nothing,
        },
{
}

} // verus!
