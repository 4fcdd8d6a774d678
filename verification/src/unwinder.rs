//! The modules that stack unwinding knows.
use crate::section_bytes::UnwindSectionBytes;
use framehop::ModuleUnwindData as Native;
use std::ops::Range;
use vstd::multiset::Multiset;
use vstd::prelude::*;

verus! {

/// Where the sections of a module are, in the addresses that its file states.
#[derive(Debug)]
pub struct ModuleSvmaInfo {
    /// The address that the file states for the start of the module.
    pub base_svma: u64,
    pub text: Option<Range<u64>>,
    pub text_env: Option<Range<u64>>,
    pub stubs: Option<Range<u64>>,
    pub stub_helper: Option<Range<u64>>,
    pub eh_frame: Option<Range<u64>>,
    pub eh_frame_hdr: Option<Range<u64>>,
    pub got: Option<Range<u64>>,
}

fn copy_range(range: &Option<Range<u64>>) -> (copy: Option<Range<u64>>)
    ensures
        copy == *range,
{
    match range {
        Some(range) => Some(Range { start: range.start, end: range.end }),
        None => None,
    }
}

impl Clone for ModuleSvmaInfo {
    fn clone(&self) -> (copy: Self)
        ensures
            copy == *self,
    {
        ModuleSvmaInfo {
            base_svma: self.base_svma,
            text: copy_range(&self.text),
            text_env: copy_range(&self.text_env),
            stubs: copy_range(&self.stubs),
            stub_helper: copy_range(&self.stub_helper),
            eh_frame: copy_range(&self.eh_frame),
            eh_frame_hdr: copy_range(&self.eh_frame_hdr),
            got: copy_range(&self.got),
        }
    }
}

/// The information that a module is unwound with.
pub enum ModuleUnwindData {
    /// The `__unwind_info` section, and `__eh_frame` beside it where there is one.
    CompactUnwindInfoAndEhFrame(UnwindSectionBytes, Option<UnwindSectionBytes>),
    /// The `__eh_frame` section.
    EhFrame(UnwindSectionBytes),
    /// The `__debug_frame` section.
    DebugFrame(UnwindSectionBytes),
    /// There is none.
    Nothing,
}

/// The mathematical content of a [`ModuleUnwindData`].
pub enum UnwindDataModel {
    CompactUnwindInfoAndEhFrame(Seq<u8>, Option<Seq<u8>>),
    EhFrame(Seq<u8>),
    DebugFrame(Seq<u8>),
    Nothing,
}

impl View for ModuleUnwindData {
    type V = UnwindDataModel;

    open spec fn view(&self) -> UnwindDataModel {
        match self {
            ModuleUnwindData::CompactUnwindInfoAndEhFrame(unwind_info, eh_frame) => {
                UnwindDataModel::CompactUnwindInfoAndEhFrame(
                    unwind_info@,
                    match eh_frame {
                        Some(eh_frame) => Some(eh_frame@),
                        None => None,
                    },
                )
            },
            ModuleUnwindData::EhFrame(eh_frame) => UnwindDataModel::EhFrame(eh_frame@),
            ModuleUnwindData::DebugFrame(debug_frame) => UnwindDataModel::DebugFrame(debug_frame@),
            ModuleUnwindData::Nothing => UnwindDataModel::Nothing,
        }
    }
}

/// The machine code of a module, and where it is in the memory of the task.
pub struct TextByteData {
    pub bytes: UnwindSectionBytes,
    pub avma_range: Range<u64>,
}

/// The mathematical content of a [`TextByteData`].
pub struct TextModel {
    pub bytes: Seq<u8>,
    pub avma_range: Range<u64>,
}

/// The bytes of `text` from the address `start` up to the address `end`, if it has all of
/// them.
pub open spec fn text_bytes(text: TextModel, start: u64, end: u64) -> Option<Seq<u8>> {
    let from = start - text.avma_range.start;
    let to = end - text.avma_range.start;
    if 0 <= from <= to <= text.bytes.len() {
        Some(text.bytes.subrange(from, to))
    } else {
        None
    }
}

impl View for TextByteData {
    type V = TextModel;

    open spec fn view(&self) -> TextModel {
        TextModel { bytes: self.bytes@, avma_range: self.avma_range }
    }
}

impl TextByteData {
    /// The bytes from the address `start` up to the address `end`, if all of them are here.
    pub fn get_bytes(&self, start: u64, end: u64) -> (bytes: Option<&[u8]>)
        ensures
            match bytes {
                Some(bytes) => text_bytes(self@, start, end) == Some(bytes@),
                None => text_bytes(self@, start, end) is None,
            },
    {
        let bytes: &[u8] = std::ops::Deref::deref(&self.bytes);
        let text_start: u64 = self.avma_range.start;
        if start < text_start || end < start {
            return None;
        }
        let from: u64 = start - text_start;
        let to: u64 = end - text_start;
        if to <= bytes.len() as u64 {
            Some(vstd::slice::slice_subrange(bytes, from as usize, to as usize))
        } else {
            None
        }
    }
}

/// A module that is loaded into the task.
pub struct Module {
    pub name: String,
    /// The addresses that the module takes up in the memory of the task.
    pub avma_range: Range<u64>,
    pub base_avma: u64,
    pub svma_info: ModuleSvmaInfo,
    pub unwind_data: ModuleUnwindData,
    pub text_data: Option<TextByteData>,
}

/// The mathematical content of a [`Module`].
pub struct ModuleModel {
    pub name: Seq<char>,
    pub avma_range: Range<u64>,
    pub base_avma: u64,
    pub svma_info: ModuleSvmaInfo,
    pub unwind_data: UnwindDataModel,
    pub text_data: Option<TextModel>,
}

impl View for Module {
    type V = ModuleModel;

    open spec fn view(&self) -> ModuleModel {
        ModuleModel {
            name: self.name@,
            avma_range: self.avma_range,
            base_avma: self.base_avma,
            svma_info: self.svma_info,
            unwind_data: self.unwind_data@,
            text_data: match self.text_data {
                Some(text_data) => Some(text_data@),
                None => None,
            },
        }
    }
}

/// The unwinder of `framehop` for the architecture that this runs on.
#[verifier::external_body]
pub struct Unwinder {
    /// What walks the stacks.
    pub native: framehop::UnwinderNative<UnwindSectionBytes, framehop::MayAllocateDuringUnwind>,
}

/// The modules that an unwinder knows, as they were handed to it.
pub uninterp spec fn unwinder_modules(unwinder: Unwinder) -> Multiset<ModuleModel>;

/// Whether a module starts at `start` in the memory of the task.
pub open spec fn module_at(modules: Multiset<ModuleModel>, start: u64) -> bool {
    exists|module: ModuleModel| #[trigger]
        modules.contains(module) && module.avma_range.start == start
}

/// Whether `after` is `before` without one module that starts at `start`, or all of
/// `before` where no module starts there.
pub open spec fn one_removed(
    before: Multiset<ModuleModel>,
    start: u64,
    after: Multiset<ModuleModel>,
) -> bool {
    if module_at(before, start) {
        exists|module: ModuleModel| #[trigger]
            before.contains(module) && module.avma_range.start == start && after == before.remove(
                module,
            )
    } else {
        after == before
    }
}

/// Calls `framehop::UnwinderNative::new`, which knows no module.
#[verifier::external_body]
pub(crate) fn new_unwinder() -> (unwinder: Unwinder)
    ensures
        unwinder_modules(unwinder) == Multiset::<ModuleModel>::empty(),
{
    Unwinder { native: framehop::UnwinderNative::new() }
}

/// Calls `framehop::Unwinder::add_module` with the module that `framehop::Module::new` makes
/// of `module`. It comes to the modules that are there; another one at the same address
/// stays.
#[verifier::external_body]
pub(crate) fn add_module(unwinder: &mut Unwinder, module: Module)
    ensures
        unwinder_modules(*final(unwinder)) == unwinder_modules(*old(unwinder)).insert(module@),
{
    let Module { name, avma_range, base_avma, svma_info, unwind_data, text_data } = module;
    let ModuleSvmaInfo {
        base_svma, text, text_env, stubs, stub_helper, eh_frame, eh_frame_hdr, got
    } = svma_info;
    let info = framehop::ModuleSvmaInfo { base_svma, text, text_env, stubs, stub_helper,
        eh_frame, eh_frame_hdr, got };
    let unwind_data = match unwind_data {
        ModuleUnwindData::CompactUnwindInfoAndEhFrame(a, b) => Native::CompactUnwindInfoAndEhFrame(a, b),
        ModuleUnwindData::EhFrame(a) => Native::EhFrame(a),
        ModuleUnwindData::DebugFrame(a) => Native::DebugFrame(a),
        ModuleUnwindData::Nothing => Native::None,
    };
    let text_data = text_data.map(|t| framehop::TextByteData::new(t.bytes, t.avma_range));
    let native = framehop::Module::new(name, avma_range, base_avma, info, unwind_data, text_data);
    framehop::Unwinder::add_module(&mut unwinder.native, native);
}

/// Calls `framehop::Unwinder::remove_module`. One module that starts at `start` goes; where
/// several do, it is not said which. Where none does, nothing happens.
#[verifier::external_body]
pub(crate) fn remove_module(unwinder: &mut Unwinder, start: u64)
    ensures
        one_removed(
            unwinder_modules(*old(unwinder)),
            start,
            unwinder_modules(*final(unwinder)),
        ),
{
    framehop::Unwinder::remove_module(&mut unwinder.native, start);
}

} // verus!
