use id3::TagLike;
use loudnorm::tags::{AudioFile, M4aFile, Mp3File};

fn tcmp_frame(data: Vec<u8>) -> id3::Frame {
    id3::Frame::with_content(
        "TCMP",
        id3::Content::Unknown(id3::frame::Unknown { data, version: id3::Version::Id3v24 }),
    )
}

#[test]
fn mp3_tags_read_back() {
    let mut tag = id3::Tag::new();
    tag.set_artist("Artist");
    tag.set_album("Album");
    let file = Mp3File::new(tag);
    assert_eq!(file.artist(), Some("Artist".to_string()));
    assert_eq!(file.album(), Some("Album".to_string()));
    assert_eq!(file.compilation(), false);
}

#[test]
fn mp3_compilation_needs_nonzero_first_byte() {
    let mut tag = id3::Tag::new();
    tag.add_frame(tcmp_frame(vec![1]));
    assert!(Mp3File::new(tag).compilation());

    let mut tag = id3::Tag::new();
    tag.add_frame(tcmp_frame(vec![0]));
    assert!(!Mp3File::new(tag).compilation());

    let mut tag = id3::Tag::new();
    tag.add_frame(tcmp_frame(vec![]));
    assert!(!Mp3File::new(tag).compilation());

    let mut tag = id3::Tag::new();
    tag.add_frame(tcmp_frame(vec![2, 0]));
    assert!(Mp3File::new(tag).compilation());

    assert!(!Mp3File::new(id3::Tag::new()).compilation());
}

#[test]
fn mp3_normalization_replaces_only_its_comment() {
    let mut tag = id3::Tag::new();
    tag.set_artist("Artist");
    tag.set_album("Album");
    tag.add_frame(id3::frame::Comment {
        lang: "eng".to_string(),
        description: "other".to_string(),
        text: "kept".to_string(),
    });
    let mut file = Mp3File::new(tag);
    file.set_normalization(" first");
    file.set_normalization(" second");
    let tag = file.into_tag();
    assert_eq!(tag.artist(), Some("Artist"));
    assert_eq!(tag.album(), Some("Album"));
    let norm: Vec<_> = tag.comments().filter(|c| c.description == "iTunNORM").collect();
    assert_eq!(norm.len(), 1);
    assert_eq!(norm[0].text, " second");
    assert_eq!(norm[0].lang, "eng");
    assert!(tag.comments().any(|c| c.description == "other" && c.text == "kept"));
}

#[test]
fn m4a_tags_read_back() {
    let mut tag = mp4ameta::Tag::default();
    tag.set_artist("Artist");
    tag.set_album("Album");
    let file = M4aFile::new(tag);
    assert_eq!(file.artist(), Some("Artist".to_string()));
    assert_eq!(file.album(), Some("Album".to_string()));
    assert_eq!(file.compilation(), false);
}

#[test]
fn m4a_compilation_needs_single_nonzero_byte() {
    let mut tag = mp4ameta::Tag::default();
    tag.set_compilation();
    assert!(M4aFile::new(tag).compilation());

    let mut tag = mp4ameta::Tag::default();
    tag.add_data(mp4ameta::Fourcc(*b"cpil"), mp4ameta::Data::BeSigned(vec![0]));
    assert!(!M4aFile::new(tag).compilation());

    // A multi-byte value counts as non-compilation.
    let mut tag = mp4ameta::Tag::default();
    tag.add_data(mp4ameta::Fourcc(*b"cpil"), mp4ameta::Data::BeSigned(vec![1, 1]));
    assert!(!M4aFile::new(tag).compilation());

    assert!(!M4aFile::new(mp4ameta::Tag::default()).compilation());
}

#[test]
fn m4a_normalization_stored_as_freeform() {
    let mut file = M4aFile::new(mp4ameta::Tag::default());
    file.set_normalization(" value");
    let tag = file.into_tag();
    let ident = mp4ameta::FreeformIdent::new_borrowed("com.apple.iTunes", "iTunNORM");
    let data: Vec<_> = tag.data_of(&ident).collect();
    assert_eq!(data.len(), 1);
    assert_eq!(data[0].string(), Some(" value"));
}

#[test]
fn m4a_normalization_replaces_prior_value() {
    let mut tag = mp4ameta::Tag::default();
    tag.set_artist("Artist");
    let mut file = M4aFile::new(tag);
    file.set_normalization(" first");
    file.set_normalization(" second");
    let tag = file.into_tag();
    assert_eq!(tag.artist(), Some("Artist"));
    let ident = mp4ameta::FreeformIdent::new_borrowed("com.apple.iTunes", "iTunNORM");
    let data: Vec<_> = tag.data_of(&ident).collect();
    assert_eq!(data.len(), 1);
    assert_eq!(data[0].string(), Some(" second"));
}
