use album_cover_check::audio::{
    ExtensionKind, PictureKind, SupportedFormat, TagFields, TagInfo, classify_extension,
    external_cover_candidates, has_external_cover_hint, is_silent_junk_file, normalized_extension,
    read_song_record, supported_format, tag_info,
};

#[test]
fn classifies_supported_formats_in_any_case() {
    assert_eq!(classify_extension("music/album/song.mp3"), ExtensionKind::SupportedAudio);
    assert_eq!(classify_extension("music/album/song.MP3"), ExtensionKind::SupportedAudio);
    assert_eq!(classify_extension("music/album/song.FlAc"), ExtensionKind::SupportedAudio);
    assert_eq!(classify_extension("music/album/song.m4a"), ExtensionKind::SupportedAudio);
    assert_eq!(classify_extension("music/album/video.mp4"), ExtensionKind::SupportedAudio);
}

#[test]
fn classifies_unsupported_audio() {
    for ext in ["aac", "aiff", "alac", "ape", "dsd", "dsf", "ogg", "opus", "wav", "WMA"] {
        let path = format!("music/track.{ext}");
        assert_eq!(classify_extension(&path), ExtensionKind::UnsupportedAudio, "{path}");
    }
}

#[test]
fn classifies_other_files_as_ignored() {
    assert_eq!(classify_extension("music/cover.jpg"), ExtensionKind::Ignored);
    assert_eq!(classify_extension("music/README"), ExtensionKind::Ignored);
    assert_eq!(classify_extension("music/.mp3"), ExtensionKind::Ignored);
    assert_eq!(classify_extension("music/song.mp3.bak"), ExtensionKind::Ignored);
}

#[test]
fn normalized_extension_follows_std() {
    assert_eq!(normalized_extension("a/B.FLAC"), Some(String::from("flac")));
    assert_eq!(normalized_extension("a/archive.tar.GZ"), Some(String::from("gz")));
    assert_eq!(normalized_extension("a/.hidden"), None);
    assert_eq!(normalized_extension("a/noext"), None);
    assert_eq!(normalized_extension("a/trailing."), Some(String::new()));
    assert_eq!(normalized_extension("a/.."), None);
    assert_eq!(normalized_extension(""), None);
}

#[test]
fn junk_files_are_recognised() {
    assert!(is_silent_junk_file("music/._song.mp3"));
    assert!(is_silent_junk_file("music/Thumbs.db"));
    assert!(is_silent_junk_file("music/THUMBS.DB"));
    assert!(is_silent_junk_file("music/.DS_Store"));
    assert!(is_silent_junk_file("desktop.ini"));
    assert!(is_silent_junk_file("Desktop.INI"));
    assert!(!is_silent_junk_file("music/song.mp3"));
    assert!(!is_silent_junk_file("music/_song.mp3"));
    assert!(!is_silent_junk_file("/"));
}

#[test]
fn supported_format_picks_the_reader() {
    assert_eq!(supported_format("x/a.mp3"), Some(SupportedFormat::FrontCoverTagged));
    assert_eq!(supported_format("x/a.FLAC"), Some(SupportedFormat::FrontCoverTagged));
    assert_eq!(supported_format("x/a.m4a"), Some(SupportedFormat::Mp4Like));
    assert_eq!(supported_format("x/a.MP4"), Some(SupportedFormat::Mp4Like));
    assert_eq!(supported_format("x/a.wav"), None);
}

#[test]
fn cover_candidates_are_beside_the_song() {
    let candidates = external_cover_candidates("music/album/song.mp3");
    assert_eq!(
        candidates,
        vec![
            "music/album/cover.jpg",
            "music/album/cover.jpeg",
            "music/album/cover.png",
            "music/album/folder.jpg",
            "music/album/folder.jpeg",
            "music/album/folder.png",
            "music/album/front.jpg",
            "music/album/front.jpeg",
            "music/album/front.png",
        ]
    );
    assert!(external_cover_candidates("/").is_empty());
}

#[test]
fn cover_hint_is_any_candidate() {
    assert!(!has_external_cover_hint(&vec![]));
    assert!(!has_external_cover_hint(&vec![false, false]));
    assert!(has_external_cover_hint(&vec![false, true]));
}

fn tags(album: Option<&str>, artist: Option<&str>, pictures: Vec<PictureKind>) -> TagInfo {
    TagInfo {
        album: album.map(String::from),
        artist: artist.map(String::from),
        pictures,
    }
}

#[test]
fn song_record_from_tags() {
    let record = read_song_record(
        "music/Album/01.flac",
        Ok(tags(Some("Album"), Some("Artist"), vec![PictureKind::Other, PictureKind::FrontCover])),
        true,
    )
    .unwrap();
    assert_eq!(record.album, "Album");
    assert_eq!(record.artist, "Artist");
    assert_eq!(record.parent_directory, "music/Album");
    assert!(record.has_front_cover);
    assert!(record.has_external_cover_hint);
}

#[test]
fn blank_or_missing_tags_fall_back() {
    let record = read_song_record(
        "music/Album/01.mp3",
        Ok(tags(Some(" \t\u{3000}"), None, vec![PictureKind::Other])),
        false,
    )
    .unwrap();
    assert_eq!(record.album, "[Unknown Album]");
    assert_eq!(record.artist, "[Unknown Artist]");
    assert!(!record.has_front_cover);
    assert!(!record.has_external_cover_hint);
}

#[test]
fn an_external_image_is_not_an_embedded_cover() {
    let record = read_song_record("music/Album/01.m4a", Ok(tags(Some("A"), Some("B"), vec![])), true).unwrap();
    assert!(!record.has_front_cover);
    assert!(record.has_external_cover_hint);
}

#[test]
fn mp4_artwork_is_a_cover() {
    let record = read_song_record(
        "music/Album/01.m4a",
        Ok(tags(Some("A"), Some("B"), vec![PictureKind::Mp4Artwork])),
        false,
    )
    .unwrap();
    assert!(record.has_front_cover);
}

#[test]
fn unsupported_format_is_an_error() {
    let error = read_song_record("music/Album/01.wav", Ok(tags(None, None, vec![])), false).err().unwrap();
    assert_eq!(error, "unsupported format for metadata read: music/Album/01.wav");
}

#[test]
fn reading_failure_passes_through() {
    let error = read_song_record("music/Album/01.mp3", Err(String::from("failed to open file")), false)
        .err()
        .unwrap();
    assert_eq!(error, "failed to open file");
}

#[test]
fn a_path_without_parent_is_an_error() {
    let error = read_song_record("/", Ok(tags(None, None, vec![])), false).err().unwrap();
    assert!(error.starts_with("unsupported format"));
}

fn fields(primary: bool, album: Option<&str>, artist: Option<&str>) -> TagFields {
    TagFields {
        is_primary: primary,
        album: album.map(String::from),
        artist: artist.map(String::from),
    }
}

#[test]
fn album_and_artist_come_from_the_primary_tag_else_the_first() {
    let info = tag_info(
        &vec![fields(false, Some("Other"), None), fields(true, Some("Main"), Some("Band")), fields(true, Some("Late"), None)],
        vec![PictureKind::FrontCover],
    );
    assert_eq!(info.album.as_deref(), Some("Main"));
    assert_eq!(info.artist.as_deref(), Some("Band"));
    assert_eq!(info.pictures, vec![PictureKind::FrontCover]);
    let info = tag_info(&vec![fields(false, Some("First"), Some("A")), fields(false, Some("Second"), None)], vec![]);
    assert_eq!(info.album.as_deref(), Some("First"));
    assert_eq!(info.artist.as_deref(), Some("A"));
    let info = tag_info(&vec![], vec![PictureKind::Other]);
    assert_eq!(info.album, None);
    assert_eq!(info.artist, None);
}
