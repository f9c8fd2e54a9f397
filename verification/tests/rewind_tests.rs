use std::collections::HashMap;

use journal_trace::mft::MftNode;
use journal_trace::rewind::RewindResolver;
use journal_trace::usn_record::{UsnRecord, USN_REASON_FILE_CREATE, USN_REASON_RENAME_NEW_NAME};

fn rec(entry: u64, parent: u64, usn: i64, reason: u32, name: &str) -> UsnRecord {
    UsnRecord {
        id: usn as usize,
        record_length: 80,
        major_version: 2,
        minor_version: 0,
        file_ref_number: entry,
        file_ref_seq: 1,
        parent_file_ref_number: parent,
        parent_file_ref_seq: 1,
        usn,
        timestamp_raw: 0,
        timestamp_formatted: String::new(),
        reason,
        reason_str: String::new(),
        source_info: 0,
        security_id: 0,
        file_attributes: 0,
        file_name: name.to_string(),
        full_path: name.to_string(),
        is_ghost: false,
        is_stomp: false,
    }
}

fn users_node() -> MftNode {
    MftNode {
        entry: 50,
        sequence: 1,
        parent_entry: 5,
        parent_sequence: 5,
        name: "Users".to_string(),
        is_dir: true,
        si_created: 0,
        si_modified: 0,
        fn_created: 0,
        fn_modified: 0,
    }
}

#[test]
fn paths_follow_the_folder_names_of_their_time() {
    let records = vec![
        rec(40, 5, 10, USN_REASON_FILE_CREATE, "Games"),
        rec(41, 40, 20, USN_REASON_FILE_CREATE, "a.exe"),
        rec(40, 5, 30, USN_REASON_RENAME_NEW_NAME, "Old"),
        rec(41, 40, 35, 0, "a.exe"),
    ];
    let mut r = RewindResolver::new('c', HashMap::new());
    assert_eq!(r.drive_letter, 'C');
    r.index_records(&records);
    assert_eq!(r.resolve_path(&records[1]), "C:\\Games\\a.exe");
    assert_eq!(r.resolve_path(&records[3]), "C:\\Old\\a.exe");
    assert_eq!(r.resolve_path(&records[0]), "C:\\Games");
    assert_eq!(r.find_parent_link_at_usn(40, 15), Some(("Games".to_string(), 5)));
    assert_eq!(r.find_parent_link_at_usn(40, 31), Some(("Old".to_string(), 5)));
    assert_eq!(r.find_parent_link_at_usn(77, 31), None);
}

#[test]
fn table_entries_and_orphans() {
    let mut nodes = HashMap::new();
    nodes.insert(50u64, users_node());
    let r = RewindResolver::new('D', nodes);
    assert_eq!(r.resolve_path(&rec(60, 50, 1, 0, "x.txt")), "D:\\Users\\x.txt");
    assert_eq!(r.resolve_path(&rec(61, 99, 1, 0, "y.txt")), "D:\\$Orphan_99\\y.txt");
    assert_eq!(r.resolve_path(&rec(62, 5, 1, 0, "")), "D:\\");
}

#[test]
fn all_paths_resolved_in_place() {
    let mut records = vec![
        rec(40, 5, 10, USN_REASON_FILE_CREATE, "Games"),
        rec(41, 40, 20, USN_REASON_FILE_CREATE, "a.exe"),
    ];
    let mut r = RewindResolver::new('C', HashMap::new());
    r.index_records(&records);
    r.resolve_all_paths(&mut records);
    assert_eq!(records[0].full_path, "C:\\Games");
    assert_eq!(records[1].full_path, "C:\\Games\\a.exe");
    assert_eq!(records[1].file_name, "a.exe");
    for rec in &records {
        assert!(rec.full_path.starts_with("C:\\"));
    }
}
