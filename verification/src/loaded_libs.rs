//! Keeps track of the libraries that are loaded into a task: tells the unwinder and the
//! profile about each of them, and writes down when its memory was mapped.
use crate::library::{
    code_id_text, code_id_to_string, debug_id_from_text_first_page, text_page_debug_id, DebugId,
    DyldInfo, LibMappingAdd, LibMappingInfo, LibMappingOp, LibMappingOpQueue, LibMappingRemove,
    LibOpModel, LibraryInfo, MappedLib, MappedSections, Modification,
};
use crate::paths::{file_name, path_file_name};
use crate::profile::{add_library, profile_view, LibraryRecord, ProfileModel};
use crate::section_bytes::UnwindSectionBytes;
use crate::unwinder::{
    add_module, new_unwinder, one_removed, remove_module, text_bytes, unwinder_modules, Module,
    ModuleModel, ModuleUnwindData, TextByteData, TextModel, UnwindDataModel, Unwinder,
};
use fxprof_processed_profile::Profile;
use std::ops::Range;
use vstd::multiset::Multiset;
use vstd::prelude::*;

verus! {

/// How many bytes of its machine code the debug identifier of a library is made of.
pub const TEXT_PAGE_SIZE: u64 = 4096;

/// Where in the memory of the task the sections of a library are: address and size.
#[derive(Clone, Copy, Debug)]
pub struct SectionAddresses {
    pub unwind_info: Option<(u64, u64)>,
    pub eh_frame: Option<(u64, u64)>,
    pub text: Option<(u64, u64)>,
}

impl DyldInfo {
    /// Whether the address that the file states as `svma` has a place in the memory of the
    /// task.
    pub open spec fn relocates(self, svma: u64) -> bool {
        self.svma_info.base_svma <= svma && svma - self.svma_info.base_svma + self.base_avma
            <= u64::MAX
    }

    /// The address in the memory of the task that the file states as `svma`.
    pub open spec fn relocated(self, svma: u64) -> u64 {
        (svma - self.svma_info.base_svma + self.base_avma) as u64
    }

    /// Whether a section has a place in the memory of the task, if the library has it.
    pub open spec fn section_relocates(self, section: Option<(u64, u64)>) -> bool {
        section matches Some((svma, _)) ==> self.relocates(svma)
    }

    /// Whether all sections that unwinding reads have a place in the memory of the task.
    pub open spec fn sections_relocate(self) -> bool {
        &&& self.section_relocates(self.unwind_sections.unwind_info_section)
        &&& self.section_relocates(self.unwind_sections.eh_frame_section)
        &&& self.section_relocates(self.unwind_sections.text_segment)
    }

    /// Address and size of a section in the memory of the task.
    pub open spec fn relocated_section(self, section: Option<(u64, u64)>) -> Option<(u64, u64)> {
        match section {
            Some((svma, size)) => Some((self.relocated(svma), size)),
            None => None,
        }
    }

    fn address_relocates(&self, svma: u64) -> (fits: bool)
        ensures
            fits == self.relocates(svma),
    {
        self.svma_info.base_svma <= svma && svma - self.svma_info.base_svma <= u64::MAX
            - self.base_avma
    }

    fn address(&self, svma: u64) -> (avma: u64)
        requires
            self.relocates(svma),
        ensures
            avma == self.relocated(svma),
    {
        svma - self.svma_info.base_svma + self.base_avma
    }

    fn section_address(&self, section: Option<(u64, u64)>) -> (address: Option<(u64, u64)>)
        requires
            self.section_relocates(section),
        ensures
            address == self.relocated_section(section),
    {
        match section {
            Some((svma, size)) => Some((self.address(svma), size)),
            None => None,
        }
    }

    fn section_has_address(&self, section: Option<(u64, u64)>) -> (fits: bool)
        ensures
            fits == self.section_relocates(section),
    {
        match section {
            Some((svma, _)) => self.address_relocates(svma),
            None => true,
        }
    }

    /// Whether [`DyldInfo::section_addresses`] can be asked for.
    pub fn has_section_addresses(&self) -> (fit: bool)
        ensures
            fit == self.sections_relocate(),
    {
        self.section_has_address(self.unwind_sections.unwind_info_section)
            && self.section_has_address(self.unwind_sections.eh_frame_section)
            && self.section_has_address(self.unwind_sections.text_segment)
    }

    /// Where in the memory of the task the sections are that unwinding reads.
    pub fn section_addresses(&self) -> (addresses: SectionAddresses)
        requires
            self.sections_relocate(),
        ensures
            addresses.unwind_info == self.relocated_section(
                self.unwind_sections.unwind_info_section,
            ),
            addresses.eh_frame == self.relocated_section(self.unwind_sections.eh_frame_section),
            addresses.text == self.relocated_section(self.unwind_sections.text_segment),
    {
        SectionAddresses {
            unwind_info: self.section_address(self.unwind_sections.unwind_info_section),
            eh_frame: self.section_address(self.unwind_sections.eh_frame_section),
            text: self.section_address(self.unwind_sections.text_segment),
        }
    }

    /// Whether the memory that the library takes up has an end.
    pub open spec fn has_end(self) -> bool {
        self.base_avma + self.vmsize <= u64::MAX
    }
}

/// The machine code of a library, if it could be read.
pub open spec fn lib_text(lib: DyldInfo, sections: MappedSections) -> Option<TextModel> {
    match (lib.unwind_sections.text_segment, sections.text) {
        (Some((svma, size)), Some(data)) => Some(
            TextModel {
                bytes: data@,
                avma_range: Range {
                    start: lib.relocated(svma),
                    end: (lib.relocated(svma) + size) as u64,
                },
            },
        ),
        _ => None,
    }
}

/// The first page of the machine code of a library, if it could be read.
pub open spec fn text_first_page(text: TextModel, start: u64) -> Option<Seq<u8>> {
    if start + TEXT_PAGE_SIZE <= u64::MAX {
        text_bytes(text, start, (start + TEXT_PAGE_SIZE) as u64)
    } else {
        None
    }
}

/// The debug identifier that a library ends up with: its own, or else one that is made of the
/// first page of its machine code. Where that page could not be read it consists of zeros.
/// There is none where nothing is known of the machine code.
pub open spec fn lib_debug_id(lib: DyldInfo, sections: MappedSections) -> Option<DebugId> {
    if lib.debug_id is Some {
        lib.debug_id
    } else {
        match (lib_text(lib, sections), lib.svma_info.text) {
            (Some(text), Some(section)) => Some(
                match text_first_page(text, lib.relocated(section.start)) {
                    Some(page) => text_page_debug_id(page, true),
                    None => DebugId { uuid: 0, appendix: 0 },
                },
            ),
            _ => None,
        }
    }
}

/// What a library is unwound with: what the memory of the task holds, or else what the file
/// of the library has.
pub open spec fn lib_unwind_data(sections: MappedSections) -> UnwindDataModel {
    match (sections.unwind_info, sections.eh_frame) {
        (Some(unwind_info), eh_frame) => UnwindDataModel::CompactUnwindInfoAndEhFrame(
            unwind_info@,
            match eh_frame {
                Some(eh_frame) => Some(eh_frame@),
                None => None,
            },
        ),
        (None, Some(eh_frame)) => UnwindDataModel::EhFrame(eh_frame@),
        (None, None) => match sections.debug_frame {
            Some(debug_frame) => UnwindDataModel::DebugFrame(debug_frame@),
            None => UnwindDataModel::Nothing,
        },
    }
}

/// What the unwinder is told about a library.
pub open spec fn lib_module(lib: DyldInfo, sections: MappedSections) -> ModuleModel {
    ModuleModel {
        name: lib.file@,
        avma_range: Range { start: lib.base_avma, end: (lib.base_avma + lib.vmsize) as u64 },
        base_avma: lib.base_avma,
        svma_info: lib.svma_info,
        unwind_data: lib_unwind_data(sections),
        text_data: lib_text(lib, sections),
    }
}

/// What the profile is told about a library whose file is called `name`.
pub open spec fn lib_record(lib: DyldInfo, debug_id: DebugId, name: Seq<char>) -> LibraryRecord {
    LibraryRecord {
        name,
        debug_name: name,
        path: lib.file@,
        debug_path: lib.file@,
        debug_id,
        code_id: match lib.code_id {
            Some(code_id) => Some(code_id_text(code_id@)),
            None => None,
        },
        arch: match lib.arch {
            Some(arch) => Some(arch@),
            None => None,
        },
        is_plain: true,
    }
}

/// Whether the addresses that are computed for the unwinder and for the debug identifier of a
/// library exist.
pub open spec fn lib_has_addresses(lib: DyldInfo, sections: MappedSections) -> bool {
    &&& lib.has_end()
    &&& sections.text is Some ==> lib.unwind_sections.text_segment is Some
    &&& (lib.unwind_sections.text_segment, sections.text) matches (Some((svma, size)), Some(_))
        ==> lib.relocates(svma) && lib.relocated(svma) + size <= u64::MAX
    &&& lib.debug_id is None && sections.text is Some && lib.svma_info.text is Some
        ==> lib.relocates(lib.svma_info.text->0.start)
}

/// Whether a library can be added: its addresses exist, and it has a debug identifier if it has
/// to be shown in the profile.
pub open spec fn lib_is_addable(lib: DyldInfo, sections: MappedSections) -> bool {
    &&& lib_has_addresses(lib, sections)
    &&& path_file_name(lib.file@) is Some ==> lib_debug_id(lib, sections) is Some
}

impl MappedLib {
    /// Whether the library can be added.
    pub fn is_addable(&self) -> (addable: bool)
        ensures
            addable == lib_is_addable(self.lib, self.sections),
    {
        let lib = &self.lib;
        if lib.vmsize > u64::MAX - lib.base_avma {
            return false;
        }
        if self.sections.text.is_some() {
            match lib.unwind_sections.text_segment {
                Some((svma, size)) => {
                    if !lib.address_relocates(svma) || size > u64::MAX - lib.address(svma) {
                        return false;
                    }
                },
                None => return false,
            }
            if lib.debug_id.is_none() {
                if let Some(text) = &lib.svma_info.text {
                    if !lib.address_relocates(text.start) {
                        return false;
                    }
                }
            }
        }
        if file_name(lib.file.as_str()).is_none() {
            return true;
        }
        lib.debug_id.is_some() || (self.sections.text.is_some() && lib.svma_info.text.is_some())
    }
}

/// The libraries that are loaded into a task.
pub struct LoadedLibs {
    pub unwinder: Unwinder,
    pub lib_mapping_ops: LibMappingOpQueue,
}

/// The profile after a change in the loaded libraries.
pub open spec fn profile_step(profile: ProfileModel, change: Modification) -> ProfileModel {
    match change {
        Modification::Added(added) => match path_file_name(added.lib.file@) {
            Some(name) => profile.add_library(
                lib_record(added.lib, lib_debug_id(added.lib, added.sections)->0, name),
            ),
            None => profile,
        },
        Modification::Removed(_) => profile,
    }
}

/// The profile after some changes in the loaded libraries.
pub open spec fn profile_after(profile: ProfileModel, changes: Seq<Modification>) -> ProfileModel
    decreases changes.len(),
{
    if changes.len() == 0 {
        profile
    } else {
        profile_step(profile_after(profile, changes.drop_last()), changes.last())
    }
}

/// What is written down about a change in the loaded libraries; `profile` is the profile
/// before the change.
pub open spec fn op_for(profile: ProfileModel, change: Modification) -> Option<LibOpModel> {
    match change {
        Modification::Added(added) => match path_file_name(added.lib.file@) {
            Some(name) => Some(
                LibOpModel::Add {
                    start_avma: added.lib.base_avma,
                    end_avma: (added.lib.base_avma + added.lib.vmsize) as u64,
                    relative_address_at_start: 0,
                    library: profile_step(profile, change).libraries.index_of_first(
                        lib_record(added.lib, lib_debug_id(added.lib, added.sections)->0, name),
                    )->0 as nat,
                },
            ),
            None => None,
        },
        Modification::Removed(lib) => Some(LibOpModel::Remove { start_avma: lib.base_avma }),
    }
}

/// What is written down about some changes in the loaded libraries, all of them at the same
/// time; `profile` is the profile before the changes.
pub open spec fn ops_for(profile: ProfileModel, now_mono: u64, changes: Seq<Modification>) -> Seq<
    (u64, LibOpModel),
>
    decreases changes.len(),
{
    if changes.len() == 0 {
        seq![]
    } else {
        let before = changes.drop_last();
        match op_for(profile_after(profile, before), changes.last()) {
            Some(op) => ops_for(profile, now_mono, before).push((now_mono, op)),
            None => ops_for(profile, now_mono, before),
        }
    }
}

/// Whether `after` can be the modules of the unwinder after a change in the loaded libraries.
pub open spec fn modules_step(
    before: Multiset<ModuleModel>,
    change: Modification,
    after: Multiset<ModuleModel>,
) -> bool {
    match change {
        Modification::Added(added) => after == before.insert(
            lib_module(added.lib, added.sections),
        ),
        Modification::Removed(lib) => one_removed(before, lib.base_avma, after),
    }
}

/// Whether `after` can be the modules of the unwinder after some changes in the loaded
/// libraries.
pub open spec fn modules_after(
    before: Multiset<ModuleModel>,
    changes: Seq<Modification>,
    after: Multiset<ModuleModel>,
) -> bool
    decreases changes.len(),
{
    if changes.len() == 0 {
        after == before
    } else {
        exists|between: Multiset<ModuleModel>|
            modules_after(before, changes.drop_last(), between) && #[trigger] modules_step(
                between,
                changes.last(),
                after,
            )
    }
}

/// Whether all libraries that come with some changes can be added.
pub open spec fn changes_are_addable(changes: Seq<Modification>) -> bool {
    forall|i: int|
        #![trigger changes[i]]
        0 <= i < changes.len() ==> (changes[i] matches Modification::Added(added)
            ==> lib_is_addable(added.lib, added.sections))
}

impl LoadedLibs {
    /// No library is loaded.
    pub fn new() -> (libs: Self)
        ensures
            unwinder_modules(libs.unwinder) == Multiset::<ModuleModel>::empty(),
            libs.lib_mapping_ops@ == Seq::<(u64, LibOpModel)>::empty(),
    {
        LoadedLibs { unwinder: new_unwinder(), lib_mapping_ops: LibMappingOpQueue::new() }
    }

    /// Tells the unwinder about a library, and sees to it that the library has a debug
    /// identifier if its machine code could be read.
    pub fn add_lib_to_unwinder_and_ensure_debug_id(
        &mut self,
        lib: &mut DyldInfo,
        sections: MappedSections,
    )
        requires
            lib_has_addresses(*old(lib), sections),
        ensures
            *final(lib) == (DyldInfo {
                debug_id: lib_debug_id(*old(lib), sections),
                ..*old(lib)
            }),
            unwinder_modules(final(self).unwinder) == unwinder_modules(old(self).unwinder).insert(
                lib_module(*old(lib), sections),
            ),
            final(self).lib_mapping_ops == old(self).lib_mapping_ops,
    {
        let text_data = match (lib.unwind_sections.text_segment, sections.text) {
            (Some((svma, size)), Some(data)) => {
                let avma: u64 = lib.address(svma);
                Some(
                    TextByteData {
                        bytes: UnwindSectionBytes::Remapped(data),
                        avma_range: Range { start: avma, end: avma + size },
                    },
                )
            },
            _ => None,
        };
        if lib.debug_id.is_none() {
            if let (Some(text_data), Some(text_section)) = (&text_data, &lib.svma_info.text) {
                let start: u64 = lib.address(text_section.start);
                let end: u64 = start.wrapping_add(TEXT_PAGE_SIZE);
                // Generate a debug ID from the __text section.
                let debug_id = match text_data.get_bytes(start, end) {
                    Some(text_first_page) => debug_id_from_text_first_page(text_first_page, true),
                    None => DebugId::nil(),
                };
                lib.debug_id = Some(debug_id);
            }
        }
        let unwind_data = match (sections.unwind_info, sections.eh_frame) {
            (Some(unwind_info), eh_frame) => ModuleUnwindData::CompactUnwindInfoAndEhFrame(
                UnwindSectionBytes::Remapped(unwind_info),
                match eh_frame {
                    Some(eh_frame) => Some(UnwindSectionBytes::Remapped(eh_frame)),
                    None => None,
                },
            ),
            (None, Some(eh_frame)) => ModuleUnwindData::EhFrame(
                UnwindSectionBytes::Remapped(eh_frame),
            ),
            (None, None) => match sections.debug_frame {
                Some(debug_frame) => ModuleUnwindData::DebugFrame(debug_frame),
                None => ModuleUnwindData::Nothing,
            },
        };
        let module = Module {
            name: lib.file.clone(),
            avma_range: Range { start: lib.base_avma, end: lib.base_avma + lib.vmsize },
            base_avma: lib.base_avma,
            svma_info: lib.svma_info.clone(),
            unwind_data,
            text_data,
        };
        add_module(&mut self.unwinder, module);
    }

    fn add_lib(&mut self, now_mono: u64, added: MappedLib, profile: &mut Profile)
        requires
            lib_is_addable(added.lib, added.sections),
        ensures
            profile_view(*final(profile)) == profile_step(
                profile_view(*old(profile)),
                Modification::Added(added),
            ),
            final(self).lib_mapping_ops@ == match op_for(
                profile_view(*old(profile)),
                Modification::Added(added),
            ) {
                Some(op) => old(self).lib_mapping_ops@.push((now_mono, op)),
                None => old(self).lib_mapping_ops@,
            },
            modules_step(
                unwinder_modules(old(self).unwinder),
                Modification::Added(added),
                unwinder_modules(final(self).unwinder),
            ),
    {
        let MappedLib { mut lib, sections } = added;
        self.add_lib_to_unwinder_and_ensure_debug_id(&mut lib, sections);
        if let Some(name) = file_name(lib.file.as_str()) {
            let end_avma: u64 = lib.base_avma + lib.vmsize;
            let info = LibraryInfo {
                name: name.clone(),
                debug_name: name,
                path: lib.file.clone(),
                debug_path: lib.file,
                debug_id: lib.debug_id.unwrap(),
                code_id: match lib.code_id {
                    Some(code_id) => Some(code_id_to_string(code_id)),
                    None => None,
                },
                arch: match lib.arch {
                    Some(arch) => Some(arch.to_owned()),
                    None => None,
                },
            };
            assert(info@ == lib_record(
                added.lib,
                lib_debug_id(added.lib, added.sections)->0,
                path_file_name(added.lib.file@)->0,
            ));
            let lib_handle = add_library(profile, info);
            self.lib_mapping_ops.push(
                now_mono,
                LibMappingOp::Add(
                    LibMappingAdd {
                        start_avma: lib.base_avma,
                        end_avma,
                        relative_address_at_start: 0,
                        info: LibMappingInfo { lib_handle },
                    },
                ),
            );
        }
    }

    /// Takes in some changes in the loaded libraries. What is written down about them gets the
    /// time `now_mono`.
    pub fn process_lib_modifications(
        &mut self,
        now_mono: u64,
        changes: Vec<Modification>,
        profile: &mut Profile,
    )
        requires
            changes_are_addable(changes@),
        ensures
            profile_view(*final(profile)) == profile_after(profile_view(*old(profile)), changes@),
            final(self).lib_mapping_ops@ == old(self).lib_mapping_ops@ + ops_for(
                profile_view(*old(profile)),
                now_mono,
                changes@,
            ),
            modules_after(
                unwinder_modules(old(self).unwinder),
                changes@,
                unwinder_modules(final(self).unwinder),
            ),
    {
        let ghost all = changes@;
        let ghost modules = unwinder_modules(self.unwinder);
        let ghost ops = self.lib_mapping_ops@;
        let ghost before = profile_view(*profile);
        assert(all.take(0) =~= Seq::<Modification>::empty());
        assert(ops + ops_for(before, now_mono, all.take(0)) =~= ops);
        for change in iter: changes
            invariant
                iter.seq() == all,
                changes_are_addable(all),
                profile_view(*profile) == profile_after(before, all.take(iter.index() as int)),
                self.lib_mapping_ops@ == ops + ops_for(
                    before,
                    now_mono,
                    all.take(iter.index() as int),
                ),
                modules_after(
                    modules,
                    all.take(iter.index() as int),
                    unwinder_modules(self.unwinder),
                ),
        {
            let ghost done = all.take(iter.index() as int);
            let ghost next = all.take(iter.index() + 1);
            let ghost ops_so_far = self.lib_mapping_ops@;
            let ghost between = unwinder_modules(self.unwinder);
            assert(next.drop_last() =~= done);
            assert(next.last() == change);
            match change {
                Modification::Added(added) => {
                    self.add_lib(now_mono, added, profile);
                },
                Modification::Removed(lib) => {
                    remove_module(&mut self.unwinder, lib.base_avma);
                    self.lib_mapping_ops.push(
                        now_mono,
                        LibMappingOp::Remove(LibMappingRemove { start_avma: lib.base_avma }),
                    );
                },
            }
            proof {
                assert(modules_after(modules, done, between) && modules_step(
                    between,
                    change,
                    unwinder_modules(self.unwinder),
                ));
                assert(self.lib_mapping_ops@ =~= ops + ops_for(before, now_mono, next));
            }
        }
        assert(all.take(all.len() as int) =~= all);
    }
}

} // verus!
