use journal_trace::antiforensics::AntiForensicsReport;
use journal_trace::reporting::csv::{csv_header, csv_row_text, csv_selected_rows};
use journal_trace::reporting::json::build_forensic_export;
use journal_trace::usn_record::UsnRecord;
use journal_trace::worker::ScanStats;

fn rec(usn: i64, path: &str, reason: &str, ghost: bool) -> UsnRecord {
    UsnRecord {
        id: 0,
        record_length: 0,
        major_version: 2,
        minor_version: 0,
        file_ref_number: 1234,
        file_ref_seq: 0,
        parent_file_ref_number: 5,
        parent_file_ref_seq: 0,
        usn,
        timestamp_raw: 0,
        timestamp_formatted: "2024-01-02 03:04:05".to_string(),
        reason: 0,
        reason_str: reason.to_string(),
        source_info: 0,
        security_id: 0,
        file_attributes: 0x2A,
        file_name: String::new(),
        full_path: path.to_string(),
        is_ghost: ghost,
        is_stomp: false,
    }
}

#[test]
fn csv_header_names_the_columns() {
    assert_eq!(csv_header(), "Timestamp,Path,Reason,USN,FileReference,ParentFileReference,Attributes,Ghost");
}

#[test]
fn csv_row_quotes_and_doubles_quotes() {
    let r = rec(-15, "C:\\a \"b\".txt", "File Created, Close", true);
    assert_eq!(
        csv_row_text(&r),
        "\"2024-01-02 03:04:05\",\"C:\\a \"\"b\"\".txt\",\"File Created, Close\",-15,1234,5,0x0000002A,true"
    );
    let mut plain = rec(7, "x", "None", false);
    plain.file_attributes = 0xDEADBEEF;
    assert!(csv_row_text(&plain).ends_with(",7,1234,5,0xDEADBEEF,false"));
}

#[test]
fn csv_rows_follow_indices_and_skip_missing() {
    let records = vec![rec(1, "a", "r", false), rec(2, "b", "r", false), rec(3, "c", "r", false)];
    let rows = csv_selected_rows(&records, &[2, 7, 0]);
    assert_eq!(rows.len(), 2);
    assert!(rows[0].contains(",3,1234,"));
    assert!(rows[1].contains(",1,1234,"));
}

#[test]
fn report_export_holds_the_selection_and_verdict() {
    let records = vec![rec(1, "a", "r", false), rec(2, "b", "r", false)];
    let report = AntiForensicsReport::default();
    let stats = ScanStats { total_entries: 2, ..ScanStats::default() };
    let e = build_forensic_export("2024-05-06 07:08:09".to_string(), &records, &[1, 5], &report, &stats);
    assert_eq!(e.exported_at, "2024-05-06 07:08:09");
    assert_eq!(e.total_records_exported, 1);
    assert_eq!(e.records.len(), 1);
    assert_eq!(e.records[0].usn, 2);
    assert_eq!(e.risk_assessment, "[CLEAN]");
    assert_eq!(e.critical_count, 0);
    assert_eq!(e.suspicious_count, 0);
    assert_eq!(e.stats.total_entries, 2);
}
