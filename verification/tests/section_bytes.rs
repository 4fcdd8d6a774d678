use memmap2::{Mmap, MmapMut};
use std::ops::Deref;
use task_profiler::section_bytes::{MmapSubData, UnwindSectionBytes, VmSubData};

fn mapped(bytes: &[u8]) -> Mmap {
    let mut mmap = MmapMut::map_anon(bytes.len()).unwrap();
    mmap.copy_from_slice(bytes);
    mmap.make_read_only().unwrap()
}

#[test]
fn part_of_a_map() {
    let data = MmapSubData::try_new(mapped(b"0123456789"), 2, 5).unwrap();
    assert_eq!(data.deref(), b"23456");
}

#[test]
fn whole_map_and_empty_parts() {
    assert_eq!(MmapSubData::try_new(mapped(b"abc"), 0, 3).unwrap().deref(), b"abc");
    assert_eq!(MmapSubData::try_new(mapped(b"abc"), 3, 0).unwrap().deref(), b"");
    assert_eq!(MmapSubData::try_new(mapped(b"abc"), 1, 0).unwrap().deref(), b"");
}

#[test]
fn parts_outside_of_the_map_are_refused() {
    assert!(MmapSubData::try_new(mapped(b"abc"), 1, 3).is_none());
    assert!(MmapSubData::try_new(mapped(b"abc"), 4, 0).is_none());
    assert!(MmapSubData::try_new(mapped(b"abc"), 0, 4).is_none());
    assert!(MmapSubData::try_new(mapped(b"abc"), usize::MAX, 1).is_none());
    assert!(MmapSubData::try_new(mapped(b"abc"), 2, usize::MAX).is_none());
}

#[test]
fn all_kinds_of_bytes_can_be_read() {
    let remapped = UnwindSectionBytes::Remapped(VmSubData::new(vec![1, 2, 3]));
    assert_eq!(remapped.deref(), &[1, 2, 3]);
    let sub_data = MmapSubData::try_new(mapped(b"xyz"), 1, 2).unwrap();
    assert_eq!(UnwindSectionBytes::Mmap(sub_data).deref(), b"yz");
    assert_eq!(UnwindSectionBytes::Allocated(vec![9]).deref(), &[9]);
}
