use album_cover_check::audio::{
    ExtensionKind, PictureKind, TagInfo, classify_extension, supported_format,
};
use album_cover_check::config::OutputFormat;
use album_cover_check::model::{ScanResult, SongRecord};
use album_cover_check::report::{
    build_report, format_modified_filter, format_modified_filter_label,
};
use album_cover_check::scanner::{EntryPlan, plan_entry};
use album_cover_check::ui::AppState;

#[test]
fn checked_exactly_when_readable() {
    for name in [
        "a.mp3", "a.MP3", "a.flac", "a.m4a", "a.mp4", "a.wav", "a.ogg", "a.txt", "a", ".mp3", "a.",
    ] {
        let path = format!("dir/{name}");
        assert_eq!(
            classify_extension(&path) == ExtensionKind::SupportedAudio,
            supported_format(&path).is_some(),
            "{path}"
        );
    }
}

#[test]
fn report_and_scan_agree_on_missing_songs() {
    let mut result = ScanResult::new();
    let songs = [
        ("m/A/1.mp3", "A", false),
        ("m/A/2.mp3", "A", false),
        ("m/B/1.flac", "B", true),
        ("m/C/1.m4a", "C", false),
    ];
    for (path, album, cover) in songs {
        let folder = path.rsplit_once('/').unwrap().0.to_string();
        result.record_song(
            path,
            SongRecord {
                album: album.to_string(),
                artist: String::from("X"),
                parent_directory: folder,
                has_front_cover: cover,
                has_external_cover_hint: false,
            },
        );
    }
    let report = build_report(
        OutputFormat::Json,
        "m",
        &result.scanned_files,
        &result.errors,
        &result.summary,
        &result.supported_format_counts,
        &result.skipped_format_counts,
        None,
        String::from("t"),
    );
    assert_eq!(report.summary.missing_front_cover_songs, result.summary.missing_front_cover);
    assert_eq!(report.summary.missing_front_cover_songs, 3);
    assert_eq!(report.summary.missing_front_cover_albums, 2);
    let albums: Vec<&str> = report.missing_albums.iter().map(|r| r.album.as_str()).collect();
    assert_eq!(albums, vec!["A", "C"]);
}

#[test]
fn filter_label_round_trip() {
    for days in [0u64, 1, 9, 10, 365, u64::MAX] {
        let text = format_modified_filter(Some(days));
        assert_eq!(format_modified_filter_label(&text), format!("最近 {days} 天"));
    }
    assert_eq!(format_modified_filter_label(&format_modified_filter(None)), "无");
}

#[test]
fn panel_lines() {
    let config = album_cover_check::model::RunConfig {
        scan_root: String::from("Music"),
        output_dir: String::from("out"),
        output_path: String::from("out/cover_checklist.csv"),
        error_path: String::from("out/cover_check_errors.csv"),
        output_format: OutputFormat::Csv,
        modified_within_days: None,
        config_path: Some(String::from("c.toml")),
        plain: false,
    };
    let app = AppState::new(config);
    assert_eq!(
        app.session_lines(),
        vec![
            "Root: Music",
            "Format: csv    Modified filter: none",
            "Output dir: out",
            "Config: c.toml",
        ]
    );
    assert_eq!(
        app.totals_lines(),
        vec![
            "Processed: 0",
            "Supported scanned: 0",
            "Missing embedded cover: 0",
            "Errors: 0",
            "Unsupported skipped: 0",
            "Supported formats: [none]",
            "Unsupported formats: [none]",
        ]
    );
    assert_eq!(
        app.output_lines(),
        vec!["Main report: out/cover_checklist.csv", "Error log: out/cover_check_errors.csv"]
    );
    assert_eq!(app.help_line(), "Use Up/Down or PageUp/PageDown to scroll");
    assert_eq!(app.stats_title(), "Scanning");
}

fn walk(result: &mut ScanResult, path: &str) {
    match plan_entry(path, false, false, true, None, None) {
        EntryPlan::ReadTags => {
            let tags = if path.contains("bad") {
                Err(String::from("unreadable"))
            } else {
                Ok(TagInfo {
                    album: Some(String::from("Album")),
                    artist: Some(String::from("Artist")),
                    pictures: vec![PictureKind::FrontCover],
                })
            };
            result.record_supported(path, tags, false);
        }
        EntryPlan::CountUnsupported => {
            result.record_unsupported(path);
        }
        EntryPlan::Skip => {}
    }
}

fn sorted_songs(result: &ScanResult) -> Vec<(String, String, bool)> {
    let mut v: Vec<(String, String, bool)> = result
        .scanned_files
        .iter()
        .map(|s| (s.album.clone(), s.parent_directory.clone(), s.has_front_cover))
        .collect();
    v.sort();
    v
}

fn sorted_errors(result: &ScanResult) -> Vec<(String, String)> {
    let mut v: Vec<(String, String)> =
        result.errors.iter().map(|e| (e.path.clone(), e.message.clone())).collect();
    v.sort();
    v
}

#[test]
fn walk_order_does_not_change_the_totals() {
    let files = ["m/A/1.mp3", "m/A/2.wav", "m/B/bad.flac", "m/B/3.ogg", "m/Thumbs.db", "m/B/4.m4a"];
    let mut forward = ScanResult::new();
    for f in files {
        walk(&mut forward, f);
    }
    let mut backward = ScanResult::new();
    for f in files.iter().rev() {
        walk(&mut backward, f);
    }
    assert_eq!(forward.summary, backward.summary);
    assert_eq!(forward.summary.processed_audio, 5);
    assert_eq!(forward.summary.skipped_unsupported, 2);
    assert_eq!(forward.summary.errors, 1);
    assert_eq!(forward.supported_format_counts.get("mp3"), backward.supported_format_counts.get("mp3"));
    assert_eq!(forward.skipped_format_counts.get("wav"), 1);
    assert_eq!(backward.skipped_format_counts.get("ogg"), 1);
    assert_eq!(sorted_songs(&forward), sorted_songs(&backward));
    assert_eq!(sorted_errors(&forward), sorted_errors(&backward));
}

#[test]
fn one_more_file_adds_what_its_kind_says() {
    let files = ["m/A/1.mp3", "m/A/2.wav"];
    let mut base = ScanResult::new();
    for f in files {
        walk(&mut base, f);
    }
    let mut with_junk = ScanResult::new();
    walk(&mut with_junk, "m/A/desktop.ini");
    for f in files {
        walk(&mut with_junk, f);
    }
    assert_eq!(with_junk.summary, base.summary);
    let mut with_ogg = ScanResult::new();
    walk(&mut with_ogg, "m/A/0.ogg");
    for f in files {
        walk(&mut with_ogg, f);
    }
    assert_eq!(with_ogg.summary.processed_audio, base.summary.processed_audio + 1);
    assert_eq!(with_ogg.summary.skipped_unsupported, base.summary.skipped_unsupported + 1);
    assert_eq!(with_ogg.summary.scanned_supported, base.summary.scanned_supported);
    assert_eq!(with_ogg.summary.errors, base.summary.errors);
    assert_eq!(with_ogg.skipped_format_counts.get("ogg"), 1);
    assert_eq!(with_ogg.scanned_files.len(), base.scanned_files.len());
}
