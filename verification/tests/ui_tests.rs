use journal_trace::antiforensics::journal_tamper::{TamperFinding, TamperSeverity};
use journal_trace::ui::bypass_modal::{
    checklist_item, checklist_match, evidence_jumps, usn_jump_query, CHECKLIST_LEN,
};
use journal_trace::ui::top_bar::{source_starts_scan, JournalSource};

#[test]
fn sources_have_display_names() {
    assert_eq!(JournalSource::ActiveJournal.as_str(), "Active $UsnJrnl:$J");
    assert_eq!(JournalSource::ShadowCopies.as_str(), "Volume Shadow Copies");
    assert_eq!(JournalSource::CarvedSlack.as_str(), "Unallocated Carved Slack");
    assert!(source_starts_scan(JournalSource::ActiveJournal));
    assert!(source_starts_scan(JournalSource::ShadowCopies));
    assert!(!source_starts_scan(JournalSource::CarvedSlack));
}

fn finding(title: &str) -> TamperFinding {
    TamperFinding {
        severity: TamperSeverity::Critical,
        title: title.to_string(),
        description: String::new(),
        evidence: vec![1],
    }
}

#[test]
fn checklist_rows_find_their_findings() {
    assert_eq!(CHECKLIST_LEN, 5);
    let (title, desc) = checklist_item(3);
    assert_eq!(title, "Rapid Deletion Bursts");
    assert_eq!(desc, "Detects automated trace scrubbing (>5 deletes within 3 seconds).");
    let findings = vec![finding("Mass User File Deletion Bursts"), finding("Timestomping Analysis Extra")];
    assert_eq!(checklist_match(&findings, "Timestomping Analysis"), Some(1));
    assert_eq!(checklist_match(&findings, "Prefetch Wiping"), None);
    assert_eq!(checklist_match(&findings, "User File"), Some(0));
}

#[test]
fn jump_query_text() {
    assert_eq!(usn_jump_query(0), "#0");
    assert_eq!(usn_jump_query(i64::MIN), "#-9223372036854775808");
    assert_eq!(usn_jump_query(123456), "#123456");
}

#[test]
fn findings_offer_their_first_eight_numbers_as_jumps() {
    let mut f = finding("x");
    f.evidence = (1..=11).collect();
    assert_eq!(evidence_jumps(&f), ((1..=8).collect::<Vec<i64>>(), 3));
    f.evidence = vec![4, 5];
    assert_eq!(evidence_jumps(&f), (vec![4, 5], 0));
}

#[test]
fn findings_clone_field_by_field() {
    let f = finding("Title");
    let g = f.clone();
    assert_eq!(g.title, "Title");
    assert_eq!(g.evidence, vec![1]);
    assert_eq!(g.severity, TamperSeverity::Critical);
}
