use mimo_tts::imports::{ParsedItem, PendingImport, IMPORT_TTL_MILLIS};

fn item(index: usize, text: &str, file: Option<&str>, tokens: usize, error: Option<&str>) -> ParsedItem {
    ParsedItem {
        index,
        text: text.to_string(),
        voice: Some("nova".to_string()),
        model: None,
        title: Some(format!("t{}", index)),
        context: Some("ctx".to_string()),
        error: error.map(|e| e.to_string()),
        source_filename: file.map(|f| f.to_string()),
        token_count: tokens,
    }
}

#[test]
fn summary_keeps_short_text_whole() {
    let it = item(3, "hello world", None, 8, None);
    let s = it.to_summary();
    assert_eq!(s.index, 3);
    assert_eq!(s.text_preview, "hello world");
    assert_eq!(s.char_count, 11);
    assert!(!s.has_error);
    assert_eq!(s.voice.as_deref(), Some("nova"));
    assert_eq!(s.title.as_deref(), Some("t3"));
    assert_eq!(s.token_count, 8);
}

#[test]
fn summary_keeps_exactly_eighty_bytes_whole() {
    let text = "a".repeat(80);
    let s = item(0, &text, None, 0, None).to_summary();
    assert_eq!(s.text_preview, text);
}

#[test]
fn summary_cuts_ascii_at_eighty_bytes() {
    let text = "b".repeat(100);
    let s = item(0, &text, None, 0, None).to_summary();
    assert_eq!(s.text_preview, format!("{}...", "b".repeat(80)));
    assert_eq!(s.char_count, 100);
}

#[test]
fn summary_cuts_multibyte_text_on_a_character_boundary() {
    // 30 three-byte characters: 90 bytes; the last boundary at or below byte 80 is 78.
    let text = "语".repeat(30);
    let s = item(0, &text, None, 0, Some("bad row")).to_summary();
    assert_eq!(s.text_preview, format!("{}...", "语".repeat(26)));
    assert_eq!(s.char_count, 30);
    assert!(s.has_error);
    assert_eq!(s.error.as_deref(), Some("bad row"));
}

#[test]
fn new_import_expires_ten_minutes_after_creation() {
    let p = PendingImport::new_at("tok".to_string(), "up.txt".to_string(), vec![], 1_000);
    assert_eq!(p.created_at, 1_000);
    assert_eq!(p.expires_at, 601_000);
    assert_eq!(IMPORT_TTL_MILLIS, 600_000);
    assert!(!p.submitted);
    assert!(!p.is_expired_at(601_000));
    assert!(p.is_expired_at(601_001));
}

#[test]
fn extending_the_ttl_counts_from_now() {
    let mut p = PendingImport::new_at("tok".to_string(), "up.txt".to_string(), vec![], 1_000);
    p.extend_ttl_at(500_000);
    assert_eq!(p.expires_at, 1_100_000);
    assert_eq!(p.created_at, 1_000);
    assert!(!p.is_expired_at(700_000));
}

#[test]
fn fresh_import_is_not_expired() {
    let p = PendingImport::new("tok".to_string(), "up.txt".to_string(), vec![]);
    assert!(!p.is_expired());
    assert_eq!(p.expires_at - p.created_at, 600_000);
}

fn sample() -> PendingImport {
    PendingImport::new_at(
        "tok".to_string(),
        "upload.zip".to_string(),
        vec![
            item(0, "abc", Some("b.txt"), 2, None),
            item(1, "hello", Some("a.txt"), 4, None),
            item(2, "语音", None, 2, Some("missing voice")),
            item(3, "xy", Some("b.txt"), 1, None),
        ],
        0,
    )
}

#[test]
fn file_stats_group_by_file_and_sort_by_name() {
    let stats = sample().file_stats();
    let names: Vec<&str> = stats.iter().map(|s| s.filename.as_str()).collect();
    assert_eq!(names, vec!["a.txt", "b.txt", "upload.zip"]);
    assert_eq!((stats[0].item_count, stats[0].char_count, stats[0].token_count), (1, 5, 4));
    assert_eq!((stats[1].item_count, stats[1].char_count, stats[1].token_count), (2, 5, 3));
    // Rows without a source file count under the upload's name; text is counted in bytes.
    assert_eq!((stats[2].item_count, stats[2].char_count, stats[2].token_count), (1, 6, 2));
}

#[test]
fn stats_total_the_rows() {
    let s = sample().stats();
    assert_eq!(s.total_items, 4);
    assert_eq!(s.valid_items, 3);
    assert_eq!(s.error_items, 1);
    assert_eq!(s.total_chars, 16);
    assert_eq!(s.total_token_count, 9);
    assert_eq!(s.file_stats.len(), 3);
    assert_eq!(s.created_at, 0);
    assert_eq!(s.expires_at, 600_000);
}

#[test]
fn removing_a_file_drops_its_rows_and_renumbers() {
    let mut p = sample();
    assert!(p.remove_file_by_filename("b.txt"));
    let rows: Vec<(usize, &str)> = p.items.iter().map(|i| (i.index, i.text.as_str())).collect();
    assert_eq!(rows, vec![(0, "hello"), (1, "语音")]);
    let names: Vec<String> = p.file_stats().into_iter().map(|s| s.filename).collect();
    assert_eq!(names, vec!["a.txt".to_string(), "upload.zip".to_string()]);
}

#[test]
fn removing_an_unknown_file_changes_nothing() {
    let mut p = sample();
    // Rows without a source file are never matched, not even by the upload's name.
    assert!(!p.remove_file_by_filename("upload.zip"));
    assert!(!p.remove_file_by_filename("c.txt"));
    assert_eq!(p.items.len(), 4);
    let idx: Vec<usize> = p.items.iter().map(|i| i.index).collect();
    assert_eq!(idx, vec![0, 1, 2, 3]);
}

#[test]
fn empty_import_has_no_file_stats() {
    let p = PendingImport::new_at("t".to_string(), "f".to_string(), vec![], 0);
    assert!(p.file_stats().is_empty());
    let s = p.stats();
    assert_eq!((s.total_items, s.valid_items, s.error_items, s.total_chars), (0, 0, 0, 0));
}
