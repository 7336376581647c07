use mouse_clicker::ui::encode_text;

#[test]
fn marks_are_md5_digests_in_hex() {
    assert_eq!(encode_text(""), "d41d8cd98f00b204e9800998ecf8427e");
    assert_eq!(encode_text("hello"), "5d41402abc4b2a76b9719d911017c592");
    assert_eq!(encode_text("Paused"), encode_text("Paused"));
    assert_ne!(encode_text("Paused"), encode_text("Resumed"));
    assert_ne!(encode_text("Paused"), "Paused");
    assert_eq!(encode_text("a much longer message than the mark itself, by far").len(), 32);
}
