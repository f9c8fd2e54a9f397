use journal_trace::ui::filter_sidebar::FilterState;
use journal_trace::usn_record::{
    reason_flag_at, REASON_COUNT, USN_REASON_BASIC_INFO_CHANGE, USN_REASON_CLOSE,
    USN_REASON_DATA_EXTEND, USN_REASON_FILE_CREATE, USN_REASON_FILE_DELETE,
    USN_REASON_RENAME_NEW_NAME,
};

#[test]
fn default_enables_all_listed_flags() {
    let fs = FilterState::default();
    assert_eq!(fs.reason_query, "");
    assert_eq!(fs.enabled_reasons.len(), 24);
    for i in 0..REASON_COUNT {
        assert!(fs.enabled_reasons.contains(&reason_flag_at(i)));
    }
    assert!(fs.is_reason_allowed(0));
    assert!(fs.is_reason_allowed(0x0000_0008));
}

#[test]
fn deselect_all_allows_nothing() {
    let mut fs = FilterState::default();
    fs.deselect_all();
    assert!(!fs.is_reason_allowed(USN_REASON_FILE_CREATE));
    assert!(!fs.is_reason_allowed(u32::MAX));
}

#[test]
fn partial_selection_needs_a_shared_flag() {
    let mut fs = FilterState::default();
    fs.apply_pc_check_preset();
    assert_eq!(fs.enabled_reasons.len(), 4);
    for f in [USN_REASON_FILE_CREATE, USN_REASON_FILE_DELETE, USN_REASON_RENAME_NEW_NAME, USN_REASON_BASIC_INFO_CHANGE] {
        assert!(fs.enabled_reasons.contains(&f));
    }
    assert!(fs.is_reason_allowed(USN_REASON_FILE_DELETE | USN_REASON_CLOSE));
    assert!(!fs.is_reason_allowed(USN_REASON_DATA_EXTEND | USN_REASON_CLOSE));
    assert!(!fs.is_reason_allowed(0));
}

#[test]
fn invert_twice_restores_selection() {
    let mut fs = FilterState::default();
    fs.apply_pc_check_preset();
    let before = fs.enabled_reasons.clone();
    fs.invert_selection();
    assert_eq!(fs.enabled_reasons.len(), 20);
    assert!(!fs.enabled_reasons.contains(&USN_REASON_FILE_CREATE));
    fs.invert_selection();
    assert_eq!(fs.enabled_reasons, before);
}

#[test]
fn select_all_after_deselect_allows_everything() {
    let mut fs = FilterState::default();
    fs.deselect_all();
    fs.select_all();
    assert_eq!(fs.enabled_reasons.len(), 24);
    assert!(fs.is_reason_allowed(0));
}

#[test]
fn sidebar_lists_reasons_matching_its_text() {
    let mut fs = FilterState::default();
    assert_eq!(fs.shown_reasons().len(), 24);
    fs.reason_query = "  FILE ".to_string();
    assert_eq!(fs.shown_reasons(), vec![6, 7]);
    fs.reason_query = "rename".to_string();
    assert_eq!(fs.shown_reasons(), vec![10, 11]);
    fs.reason_query = "zzz".to_string();
    assert!(fs.shown_reasons().is_empty());
}

#[test]
fn ticking_and_unticking_a_flag() {
    let mut fs = FilterState::default();
    fs.set_reason_enabled(USN_REASON_CLOSE, false);
    assert_eq!(fs.enabled_reasons.len(), 23);
    assert!(!fs.is_reason_allowed(USN_REASON_CLOSE));
    fs.set_reason_enabled(USN_REASON_CLOSE, true);
    assert_eq!(fs.enabled_reasons.len(), 24);
}

#[test]
fn cloned_filter_is_independent() {
    let mut fs = FilterState::default();
    fs.reason_query = "file".to_string();
    let copy = fs.clone();
    fs.deselect_all();
    assert_eq!(copy.enabled_reasons.len(), 24);
    assert_eq!(copy.reason_query, "file");
}
