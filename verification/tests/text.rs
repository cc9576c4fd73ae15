use desktop_neko::text::same_text;

#[test]
fn same_text_compares_characters() {
    assert!(same_text("left", "left"));
    assert!(!same_text("left", "right"));
    assert!(!same_text("left", "lef"));
    assert!(same_text("", ""));
    assert!(same_text("ねこ", "ねこ"));
    assert!(!same_text("ねこ", "ねこ!"));
}
