use pocketbook_notes::text::normalize_text;

#[test]
fn normalizing_twice_changes_nothing() {
    let once = normalize_text("  \u{201C}Hello,\u{201D} she said\u{2019}s \n");
    assert_eq!(once, "\"Hello,\" she said's");
    assert_eq!(normalize_text(&once), once);
}

#[test]
fn normalize_keeps_other_characters() {
    assert_eq!(normalize_text("\tsueño — «x» 'y'\u{3000}"), "sueño — «x» 'y'");
    assert_eq!(normalize_text(""), "");
    assert_eq!(normalize_text(" \n "), "");
}
