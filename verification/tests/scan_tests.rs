use album_cover_check::model::{ScanResult, SongRecord};
use album_cover_check::audio::{PictureKind, TagInfo};
use album_cover_check::scanner::{
    EntryPlan, ScanEvent, fallback_album_name, filter_window_secs, needs_modified_time,
    passes_modified_filter, plan_entry, should_consider, should_emit_progress,
};

fn song(album: &str, folder: &str, cover: bool) -> SongRecord {
    SongRecord {
        album: album.to_string(),
        artist: String::from("Artist"),
        parent_directory: folder.to_string(),
        has_front_cover: cover,
        has_external_cover_hint: false,
    }
}

#[test]
fn entries_considered_are_plain_files_that_are_not_junk() {
    assert!(should_consider("m/a.mp3", false, false, true));
    assert!(!should_consider("m/a.mp3", true, false, true));
    assert!(!should_consider("m/dir", false, true, false));
    assert!(!should_consider("m/fifo", false, false, false));
    assert!(!should_consider("m/._a.mp3", false, false, true));
}

#[test]
fn modified_filter_window() {
    assert_eq!(filter_window_secs(0), 0);
    assert_eq!(filter_window_secs(30), 30 * 86400);
    assert_eq!(filter_window_secs(u64::MAX), u64::MAX);
    assert!(passes_modified_filter(None, 100));
    assert!(passes_modified_filter(Some(100), 100));
    assert!(passes_modified_filter(Some(101), 100));
    assert!(!passes_modified_filter(Some(99), 100));
}

#[test]
fn fallback_album_is_the_folder_name() {
    assert_eq!(fallback_album_name("music/Some Album/01.mp3"), "Some Album");
    assert_eq!(fallback_album_name("01.mp3"), "[Unknown Album]");
    assert_eq!(fallback_album_name("music/   /01.mp3"), "[Unknown Album]");
}

#[test]
fn progress_is_reported_on_the_first_file_and_every_250() {
    assert!(should_emit_progress(1));
    assert!(!should_emit_progress(2));
    assert!(should_emit_progress(250));
    assert!(should_emit_progress(500));
    assert!(!should_emit_progress(499));
    assert!(should_emit_progress(0));
}

#[test]
fn a_scan_keeps_its_totals() {
    let mut result = ScanResult::new();
    let events = result.record_song("m/A/1.mp3", song("A", "m/A", false));
    assert_eq!(events.len(), 1);
    assert!(matches!(events[0], ScanEvent::Progress(_)));
    let events = result.record_song("m/A/2.MP3", song("A", "m/A", true));
    assert!(events.is_empty());
    let events = result.record_unsupported("m/A/3.wav");
    assert_eq!(events.len(), 1);
    match &events[0] {
        ScanEvent::UnsupportedAudio { extension, path } => {
            assert_eq!(extension, "wav");
            assert_eq!(path, "m/A/3.wav");
        }
        _ => panic!("unexpected event"),
    }
    let events = result.record_read_error("m/B/4.flac", String::from("broken"));
    assert_eq!(events.len(), 1);
    match &events[0] {
        ScanEvent::Error(record) => {
            assert_eq!(record.path, "m/B/4.flac");
            assert_eq!(record.album, "B");
            assert_eq!(record.message, "broken");
        }
        _ => panic!("unexpected event"),
    }
    let event = result.record_walk_error(None, "m", String::from("denied"));
    match event {
        ScanEvent::Error(record) => {
            assert_eq!(record.path, "m");
            assert_eq!(record.album, "[Unknown Album]");
        }
        _ => panic!("unexpected event"),
    }
    assert_eq!(result.summary.processed_audio, 4);
    assert_eq!(result.summary.scanned_supported, 2);
    assert_eq!(result.summary.missing_front_cover, 1);
    assert_eq!(result.summary.errors, 2);
    assert_eq!(result.summary.skipped_unsupported, 1);
    assert_eq!(result.scanned_files.len(), 2);
    assert_eq!(result.errors.len(), 2);
    assert_eq!(result.supported_format_counts.get("mp3"), 2);
    assert_eq!(result.skipped_format_counts.get("wav"), 1);
    match result.finished() {
        ScanEvent::Finished(snapshot) => {
            assert_eq!(snapshot.summary, result.summary);
            assert_eq!(snapshot.supported_format_counts.get("mp3"), 2);
        }
        _ => panic!("unexpected event"),
    }
}

#[test]
fn files_without_extension_are_counted_apart() {
    let mut result = ScanResult::new();
    result.record_unsupported("m/strange");
    assert_eq!(result.skipped_format_counts.get("[no extension]"), 1);
}

#[test]
fn progress_every_250_files() {
    let mut result = ScanResult::new();
    let mut progress = 0;
    for i in 0..500 {
        let events = result.record_unsupported(&format!("m/{i}.ogg"));
        progress += events.iter().filter(|e| matches!(e, ScanEvent::Progress(_))).count();
    }
    assert_eq!(progress, 3);
}

#[test]
fn entries_are_planned_by_kind_filter_and_extension() {
    assert_eq!(plan_entry("m/a.mp3", false, false, true, None, None), EntryPlan::ReadTags);
    assert_eq!(plan_entry("m/a.FLAC", false, false, true, None, None), EntryPlan::ReadTags);
    assert_eq!(plan_entry("m/a.wav", false, false, true, None, None), EntryPlan::CountUnsupported);
    assert_eq!(plan_entry("m/cover.jpg", false, false, true, None, None), EntryPlan::Skip);
    assert_eq!(plan_entry("m/Thumbs.db", false, false, true, None, None), EntryPlan::Skip);
    assert_eq!(plan_entry("m/._a.mp3", false, false, true, None, None), EntryPlan::Skip);
    assert_eq!(plan_entry("m/a.mp3", true, false, true, None, None), EntryPlan::Skip);
    assert_eq!(plan_entry("m/a.mp3", false, false, true, Some(100), Some(99)), EntryPlan::Skip);
    assert_eq!(plan_entry("m/a.mp3", false, false, true, Some(100), Some(100)), EntryPlan::ReadTags);
    assert_eq!(plan_entry("m/a.mp3", false, false, true, Some(100), None), EntryPlan::ReadTags);
    assert!(needs_modified_time("m/a.mp3", false, false, true, Some(100)));
    assert!(!needs_modified_time("m/a.mp3", false, false, true, None));
    assert!(!needs_modified_time("m/dir", false, true, false, Some(100)));
}

#[test]
fn supported_files_give_a_record_or_an_error() {
    let mut result = ScanResult::new();
    let tags = TagInfo {
        album: Some(String::from("Album")),
        artist: None,
        pictures: vec![PictureKind::Other],
    };
    let events = result.record_supported("m/Album/01.mp3", Ok(tags), true);
    assert_eq!(result.summary.processed_audio, 1);
    assert_eq!(result.summary.scanned_supported, 1);
    assert_eq!(result.summary.missing_front_cover, 1);
    assert_eq!(result.scanned_files.len(), 1);
    assert_eq!(result.scanned_files[0].album, "Album");
    assert_eq!(result.scanned_files[0].parent_directory, "m/Album");
    assert!(result.scanned_files[0].has_external_cover_hint);
    assert_eq!(events.len(), 1);
    let events = result.record_supported("m/Other/02.mp3", Err(String::from("bad tag")), false);
    assert_eq!(result.summary.processed_audio, 2);
    assert_eq!(result.summary.errors, 1);
    assert_eq!(result.errors[0].message, "bad tag");
    assert_eq!(result.errors[0].album, "Other");
    match &events[0] {
        ScanEvent::Error(e) => assert_eq!(e.path, "m/Other/02.mp3"),
        _ => panic!("expected an error event"),
    }
}
