use journal_trace::search::{
    is_white_space_char, parse_i64_chars, parse_search_query, record_passes_filter,
    recompute_filter, trim_chars, QueryMode,
};
use journal_trace::ui::bypass_modal::usn_jump_query;
use journal_trace::ui::filter_sidebar::FilterState;
use journal_trace::usn_record::{UsnRecord, USN_REASON_FILE_CREATE, USN_REASON_FILE_DELETE};

fn record(id: usize, usn: i64, reason: u32, name: &str, path: &str) -> UsnRecord {
    UsnRecord {
        id,
        record_length: 80,
        major_version: 2,
        minor_version: 0,
        file_ref_number: 100 + id as u64,
        file_ref_seq: 1,
        parent_file_ref_number: 5,
        parent_file_ref_seq: 5,
        usn,
        timestamp_raw: 0,
        timestamp_formatted: "1970-01-01 00:00:00".to_string(),
        reason,
        reason_str: String::new(),
        source_info: 0,
        security_id: 0,
        file_attributes: 0x20,
        file_name: name.to_string(),
        full_path: path.to_string(),
        is_ghost: false,
        is_stomp: false,
    }
}

fn sample() -> Vec<UsnRecord> {
    vec![
        record(0, 100, USN_REASON_FILE_CREATE, "loader.exe", "C:\\Temp\\loader.exe"),
        record(1, 200, USN_REASON_FILE_DELETE, "cheat.dll", "C:\\Users\\x\\cheat.dll"),
        record(2, 300, USN_REASON_FILE_CREATE, "notes.TXT", "C:\\Docs\\notes.TXT"),
        record(3, -7, 0, "zero.dll", "C:\\zero.dll"),
    ]
}

fn chars(s: &str) -> Vec<char> {
    s.chars().collect()
}

#[test]
fn trimming_drops_unicode_white_space() {
    assert_eq!(trim_chars(&chars("  \t a b \u{3000}\n")), chars("a b"));
    assert_eq!(trim_chars(&chars(" \u{2003} ")), Vec::<char>::new());
    assert!(is_white_space_char('\u{85}'));
    assert!(!is_white_space_char('\u{200B}'));
}

#[test]
fn integers_parse_as_i64_does() {
    assert_eq!(parse_i64_chars(&chars("123")), Some(123));
    assert_eq!(parse_i64_chars(&chars("+7")), Some(7));
    assert_eq!(parse_i64_chars(&chars("-9223372036854775808")), Some(i64::MIN));
    assert_eq!(parse_i64_chars(&chars("9223372036854775807")), Some(i64::MAX));
    assert_eq!(parse_i64_chars(&chars("9223372036854775808")), None);
    assert_eq!(parse_i64_chars(&chars("")), None);
    assert_eq!(parse_i64_chars(&chars("-")), None);
    assert_eq!(parse_i64_chars(&chars("12a")), None);
    assert_eq!(parse_i64_chars(&chars(" 1")), None);
    for s in ["0", "-0", "+00042", "-17", "99999999999999999999"] {
        assert_eq!(parse_i64_chars(&chars(s)), s.parse::<i64>().ok());
    }
}

#[test]
fn query_forms_are_recognised() {
    assert!(matches!(parse_search_query("   "), QueryMode::Everything));
    match parse_search_query("  Temp\\LOADER ") {
        QueryMode::Substring(q) => assert_eq!(q, chars("temp\\loader")),
        _ => panic!("expected a substring search"),
    }
    match parse_search_query("r/\\.dll$/") {
        QueryMode::Pattern(re) => assert_eq!(re.as_str(), "\\.dll$"),
        _ => panic!("expected a pattern"),
    }
    match parse_search_query("r/exe") {
        QueryMode::Pattern(re) => assert_eq!(re.as_str(), "exe"),
        _ => panic!("expected a pattern"),
    }
    match parse_search_query("r//") {
        QueryMode::Pattern(re) => assert_eq!(re.as_str(), "/"),
        _ => panic!("expected a pattern"),
    }
    match parse_search_query("r/(") {
        QueryMode::Substring(q) => assert_eq!(q, chars("r/(")),
        _ => panic!("an invalid pattern falls back to a substring search"),
    }
    assert!(matches!(parse_search_query("#300"), QueryMode::UsnJump(Some(300))));
    assert!(matches!(parse_search_query("#abc"), QueryMode::UsnJump(None)));
    assert!(matches!(parse_search_query("R/x"), QueryMode::Substring(_)));
}

#[test]
fn substring_search_ignores_case() {
    let fs = FilterState::default();
    let recs = sample();
    let (_, idx) = recompute_filter(&recs, "NOTES.txt", &fs);
    assert_eq!(idx, vec![2]);
    let (_, idx) = recompute_filter(&recs, "temp", &fs);
    assert_eq!(idx, vec![0]);
}

#[test]
fn pattern_search_matches_path_or_name() {
    let fs = FilterState::default();
    let recs = sample();
    let (mode, idx) = recompute_filter(&recs, "r/\\.dll$/", &fs);
    assert!(matches!(mode, QueryMode::Pattern(_)));
    assert_eq!(idx, vec![1, 3]);
    let (_, idx) = recompute_filter(&recs, "r/^notes", &fs);
    assert_eq!(idx, vec![2]);
}

#[test]
fn jump_query_selects_that_update_number() {
    let fs = FilterState::default();
    let recs = sample();
    let q = usn_jump_query(200);
    assert_eq!(q, "#200");
    let (_, idx) = recompute_filter(&recs, &q, &fs);
    assert_eq!(idx, vec![1]);
    assert_eq!(usn_jump_query(-7), "#-7");
    let (_, idx) = recompute_filter(&recs, "#-7", &fs);
    assert_eq!(idx, vec![3]);
    let (_, idx) = recompute_filter(&recs, "#x", &fs);
    assert_eq!(idx, Vec::<usize>::new());
}

#[test]
fn blank_query_lists_allowed_records() {
    let mut fs = FilterState::default();
    let recs = sample();
    let (_, idx) = recompute_filter(&recs, " \t", &fs);
    assert_eq!(idx, vec![0, 1, 2, 3]);
    fs.apply_pc_check_preset();
    let (_, idx) = recompute_filter(&recs, "", &fs);
    assert_eq!(idx, vec![0, 1, 2]);
    fs.deselect_all();
    let (_, idx) = recompute_filter(&recs, "", &fs);
    assert!(idx.is_empty());
}

#[test]
fn single_record_check_agrees_with_the_list() {
    let fs = FilterState::default();
    let recs = sample();
    let mode = parse_search_query("dll");
    let picked: Vec<usize> = (0..recs.len()).filter(|&i| record_passes_filter(&recs[i], &mode, &fs)).collect();
    assert_eq!(picked, vec![1, 3]);
}
