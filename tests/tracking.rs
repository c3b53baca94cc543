use std::sync::Arc;

use dyn_pod_struct::base_type::BaseType;
use dyn_pod_struct::dyn_layout::{DynField, DynLayout};
use dyn_pod_struct::tracked_dyn_struct::TrackedDynStruct;
use dyn_pod_struct::update_bitmask::UpdateBitmask;

/// Sixteen `u32` members `m0`..`m15`: 64 bytes.
fn words_layout() -> Arc<DynLayout> {
    let fields = (0..16u32)
        .map(|i| (format!("m{i}"), DynField { offset: 4 * i, ty: BaseType::U32 }))
        .collect();
    Arc::new(DynLayout::new("Words", 64, fields))
}

#[test]
fn clear_state_reports_nothing() {
    let t = TrackedDynStruct::new(&[0u8; 64], &words_layout(), 4, false);
    assert!(!t.changed());
    assert!(t.retrieve_changes().is_empty());
}

#[test]
fn marking_bytes_8_to_16_reports_granules_2_to_4() {
    let mut t = TrackedDynStruct::from_bytes(vec![0u8; 64], words_layout(), 4, false);
    t.mark_changed(8, 8);
    assert!(t.changed());
    assert_eq!(t.retrieve_changes(), vec![(2, 4)]);
}

#[test]
fn writes_report_exactly_overlapped_granules() {
    let mut t = TrackedDynStruct::from_bytes(vec![0u8; 64], words_layout(), 4, false);
    assert!(t.set(&["m1"], &5u32.to_ne_bytes()));
    t.get_mut(&["m7"]).unwrap().copy_from_slice(&6u32.to_ne_bytes());
    t.get_mut_raw(32, 8).fill(1);
    t.set_raw(60, &[1, 2, 3, 4]);
    assert_eq!(t.retrieve_changes(), vec![(1, 2), (7, 10), (15, 16)]);
    let drained = t.retrieve_changes_and_reset();
    assert_eq!(drained, vec![(1, 2), (7, 10), (15, 16)]);
    assert!(!t.changed());
    assert!(t.retrieve_changes().is_empty());
    assert_eq!(t.get(&["m7"]).unwrap(), &6u32.to_ne_bytes());
    assert_eq!(t.get_raw(32, 2), &[1, 1]);
}

#[test]
fn failed_write_marks_nothing() {
    let mut t = TrackedDynStruct::from_bytes(vec![0u8; 64], words_layout(), 4, false);
    assert!(!t.set(&["m1"], &[1, 2]));
    assert!(t.get_mut(&["nope"]).is_none());
    assert!(!t.changed());
}

#[test]
fn runs_are_cut_at_word_boundaries() {
    let mut t = TrackedDynStruct::from_bytes(vec![0u8; 128], Arc::new(DynLayout::new("Bytes", 128, vec![])), 1, false);
    t.mark_changed(14, 4);
    t.mark_changed(20, 1);
    t.mark_changed(22, 2);
    assert_eq!(t.retrieve_changes(), vec![(14, 16), (16, 18), (20, 21), (22, 24)]);
}

#[test]
fn default_marked_reports_everything() {
    let t = TrackedDynStruct::from_bytes(vec![0u8; 40], Arc::new(DynLayout::new("Bytes", 40, vec![])), 2, true);
    assert!(t.changed());
    assert_eq!(t.retrieve_changes(), vec![(0, 16), (16, 20)]);
}

#[test]
fn empty_buffer_reports_nothing() {
    let t = TrackedDynStruct::from_bytes(vec![], Arc::new(DynLayout::new("Empty", 0, vec![])), 4, true);
    assert!(t.retrieve_changes().is_empty());
}

#[test]
fn write_smaller_than_granule_marks_nothing() {
    let mut t = TrackedDynStruct::from_bytes(vec![0u8; 64], words_layout(), 4, false);
    t.mark_changed(1, 1);
    assert!(t.retrieve_changes().is_empty());
}

#[test]
fn bitmask_operations() {
    let mut m = UpdateBitmask::new(20, false);
    assert!(!m.any_set());
    assert!(!m.get(17));
    m.set_one(17);
    assert!(m.get(17));
    assert!(!m.get(16));
    assert!(m.any_set());
    m.set(3..6);
    assert!(m.get(3) && m.get(4) && m.get(5));
    assert!(!m.get(6));
    assert_eq!(m.runs(32), vec![(3, 6), (17, 18)]);
    assert_eq!(m.runs(17), vec![(3, 6)]);
    m.reset();
    assert!(!m.any_set());
    assert!(!m.get(17));
    m.set_all();
    assert!(m.any_set());
    assert!(m.get(31));
    assert_eq!(m.runs(20), vec![(0, 16), (16, 20)]);
}

#[test]
fn clone_and_default_keep_marks() {
    let mut t = TrackedDynStruct::from_bytes(vec![0u8; 64], words_layout(), 4, false);
    t.mark_changed(0, 4);
    let c = t.clone();
    assert_eq!(c.retrieve_changes(), vec![(0, 1)]);
    let m = UpdateBitmask::default();
    assert!(!m.any_set());
    assert!(m.runs(0).is_empty());
}
