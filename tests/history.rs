use pkg_inventory::history::{
    check_note,
    get_history_key, save_package_history, update_last_package_history_note, HistoryError, PackageHistoryEntry,
};

fn entry(n: usize, note: Option<&str>) -> PackageHistoryEntry {
    PackageHistoryEntry {
        kind: "upgrade".to_string(),
        from: format!("1.0.{}", n),
        to: format!("1.0.{}", n + 1),
        date: format!("2024-01-{:02}T00:00:00Z", n % 28 + 1),
        note: note.map(|s| s.to_string()),
    }
}

#[test]
fn history_key_format() {
    assert_eq!(get_history_key("/ws/app", "react"), "project:/ws/app:package:react:history");
}

#[test]
fn append_beyond_limit_keeps_latest_twenty() {
    let mut h = Vec::new();
    for i in 0..21 {
        save_package_history(&mut h, entry(i, None)).unwrap();
    }
    assert_eq!(h.len(), 20);
    assert_eq!(h[0].from, "1.0.1");
    assert_eq!(h[19].from, "1.0.20");
    for (k, e) in h.iter().enumerate() {
        assert_eq!(e.from, format!("1.0.{}", k + 1));
    }
}

#[test]
fn oversized_history_is_cut_back() {
    let mut h: Vec<PackageHistoryEntry> = (0..25).map(|i| entry(i, None)).collect();
    save_package_history(&mut h, entry(25, None)).unwrap();
    assert_eq!(h.len(), 20);
    assert_eq!(h[0].from, "1.0.6");
    assert_eq!(h[19].from, "1.0.25");
}

#[test]
fn long_note_rejected_before_change() {
    let mut h = vec![entry(0, None)];
    let long = "x".repeat(81);
    assert_eq!(save_package_history(&mut h, entry(1, Some(&long))), Err(HistoryError::NoteTooLong));
    assert_eq!(h.len(), 1);
    assert_eq!(h[0].from, "1.0.0");
    let fits = "x".repeat(80);
    assert_eq!(save_package_history(&mut h, entry(1, Some(&fits))), Ok(()));
    assert_eq!(h.len(), 2);
    let wide = "é".repeat(80);
    assert_eq!(save_package_history(&mut h, entry(2, Some(&wide))), Ok(()));
    assert_eq!(HistoryError::NoteTooLong.message(), "Note is too long (max 80 chars)");
}

#[test]
fn update_last_package_history_note_cases() {
    let mut empty: Vec<PackageHistoryEntry> = Vec::new();
    assert_eq!(update_last_package_history_note(&mut empty, "hi".to_string()), Err(HistoryError::NoHistory));
    let mut h = vec![entry(0, None), entry(1, Some("old"))];
    assert_eq!(update_last_package_history_note(&mut h, "x".repeat(81)), Err(HistoryError::NoteTooLong));
    assert_eq!(h[1].note.as_deref(), Some("old"));
    assert_eq!(update_last_package_history_note(&mut h, "pinned for CI".to_string()), Ok(()));
    assert_eq!(h.len(), 2);
    assert_eq!(h[1].note.as_deref(), Some("pinned for CI"));
    assert_eq!(h[1].from, "1.0.1");
    assert_eq!(h[0].note, None);
}

#[test]
fn note_check_counts_characters() {
    assert_eq!(check_note(&"x".repeat(80)), Ok(()));
    assert_eq!(check_note(&"x".repeat(81)), Err(HistoryError::NoteTooLong));
    assert_eq!(check_note(&"é".repeat(80)), Ok(()));
    assert_eq!(check_note(""), Ok(()));
}
