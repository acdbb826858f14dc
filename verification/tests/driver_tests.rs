use loudnorm::driver::{album_key, file_kind, group_key, match_kind, FileKind};

#[test]
fn extension_selects_container() {
    assert_eq!(file_kind("mp3"), Some(FileKind::Mp3));
    assert_eq!(file_kind("MP3"), Some(FileKind::Mp3));
    assert_eq!(file_kind("Mp3"), Some(FileKind::Mp3));
    assert_eq!(file_kind("m4a"), Some(FileKind::M4a));
    assert_eq!(file_kind("M4A"), Some(FileKind::M4a));
    assert_eq!(file_kind("flac"), None);
    assert_eq!(file_kind("mp"), None);
    assert_eq!(file_kind(""), None);
    assert_eq!(file_kind("mp33"), None);
}

#[test]
fn match_kind_takes_lowered_text() {
    assert_eq!(match_kind("mp3"), Some(FileKind::Mp3));
    assert_eq!(match_kind("m4a"), Some(FileKind::M4a));
    // Case folding is the caller's step here.
    assert_eq!(match_kind("MP3"), None);
    assert_eq!(match_kind("ogg"), None);
}

#[test]
fn album_key_joins_with_null() {
    assert_eq!(album_key("Artist", "Album"), "Artist\0Album");
    assert_eq!(album_key("", ""), "\0");
    // The null byte keeps distinct pairs distinct.
    assert_ne!(album_key("ab", "c"), album_key("a", "bc"));
}

#[test]
fn grouping_needs_both_tags_and_no_compilation() {
    assert_eq!(
        group_key(false, Some("Artist"), Some("Album")),
        Some("Artist\0Album".to_string())
    );
    assert_eq!(group_key(true, Some("Artist"), Some("Album")), None);
    assert_eq!(group_key(false, None, Some("Album")), None);
    assert_eq!(group_key(false, Some("Artist"), None), None);
    assert_eq!(group_key(false, None, None), None);
}
