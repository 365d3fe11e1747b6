use album_cover_check::config::OutputFormat;
use album_cover_check::counts::ExtensionCounts;
use album_cover_check::model::{AlbumReportRow, ErrorRecord, ScanSummary, SongRecord};
use album_cover_check::report::{
    ReportFiles, build_report, csv_errors, csv_report, dedupe_errors, dedupe_missing_albums,
    encode_csv, render_reports,
    format_extension_counts, format_modified_filter, format_modified_filter_label,
    format_output_format_label, missing_songs, text_error_log, text_report, with_utf8_bom,
    yes_no_cn,
};

fn song(artist: &str, album: &str, folder: &str, cover: bool, hint: bool) -> SongRecord {
    SongRecord {
        album: album.to_string(),
        artist: artist.to_string(),
        parent_directory: folder.to_string(),
        has_front_cover: cover,
        has_external_cover_hint: hint,
    }
}

fn error(path: &str, album: &str, message: &str) -> ErrorRecord {
    ErrorRecord { path: path.to_string(), album: album.to_string(), message: message.to_string() }
}

fn rows_summary(rows: &[AlbumReportRow]) -> Vec<(String, String, String, bool)> {
    rows.iter()
        .map(|r| (r.artist.clone(), r.album.clone(), r.folder.clone(), r.external_cover_hint))
        .collect()
}

#[test]
fn filter_and_format_labels() {
    assert_eq!(format_modified_filter(Some(30)), "last 30 days");
    assert_eq!(format_modified_filter(None), "none");
    assert_eq!(format_modified_filter_label("last 30 days"), "最近 30 天");
    assert_eq!(format_modified_filter_label("none"), "无");
    assert_eq!(format_output_format_label("text"), "文本");
    assert_eq!(format_output_format_label("csv"), "CSV");
    assert_eq!(format_output_format_label("json"), "JSON");
    assert_eq!(format_output_format_label("xml"), "xml");
    assert_eq!(yes_no_cn(true), "是");
    assert_eq!(yes_no_cn(false), "否");
}

#[test]
fn extension_counts_text() {
    let mut counts = ExtensionCounts::new();
    assert_eq!(format_extension_counts(&counts), "[none]");
    counts.increment("mp3");
    counts.increment("flac");
    counts.increment("mp3");
    assert_eq!(format_extension_counts(&counts), ".flac x1, .mp3 x2");
}

#[test]
fn albums_are_listed_once_in_path_order() {
    let songs = vec![
        song("Second", "Album", "Music/A B", false, false),
        song("First", "Album", "Music/A", false, true),
        song("Other", "Album", "Music/A", false, false),
        song("First", "Zeta", "Music/A", false, false),
    ];
    let rows = dedupe_missing_albums(&songs);
    assert_eq!(
        rows_summary(&rows),
        vec![
            (String::from("First"), String::from("Album"), String::from("Music/A"), true),
            (String::from("First"), String::from("Zeta"), String::from("Music/A"), false),
            (String::from("Second"), String::from("Album"), String::from("Music/A B"), false),
        ]
    );
}

#[test]
fn folders_with_same_components_are_one_album() {
    let songs = vec![
        song("X", "Album", "Music/A/", false, false),
        song("Y", "Album", "Music//A", false, false),
    ];
    let rows = dedupe_missing_albums(&songs);
    assert_eq!(rows.len(), 1);
    assert_eq!(rows[0].artist, "X");
}

#[test]
fn only_songs_without_cover_are_missing() {
    let songs = vec![
        song("A", "One", "m/1", true, false),
        song("B", "Two", "m/2", false, true),
        song("C", "Three", "m/3", true, true),
    ];
    let missing = missing_songs(&songs);
    assert_eq!(missing.len(), 1);
    assert_eq!(missing[0].artist, "B");
}

#[test]
fn errors_are_grouped_by_folder_and_album() {
    let errors = vec![
        error("m/B/1.mp3", "B", "first"),
        error("m/A/1.mp3", "A", "one"),
        error("m/B/2.mp3", "B", "second"),
        error("m/A/2.mp3", "Other", "two"),
    ];
    let grouped = dedupe_errors(&errors);
    let messages: Vec<&str> = grouped.iter().map(|e| e.message.as_str()).collect();
    assert_eq!(messages, vec!["one", "two", "first"]);
}

fn sample_counts() -> (ExtensionCounts, ExtensionCounts) {
    let mut supported = ExtensionCounts::new();
    supported.increment("mp3");
    supported.increment("mp3");
    supported.increment("flac");
    let skipped = ExtensionCounts::new();
    (supported, skipped)
}

#[test]
fn report_text_is_exact() {
    let songs = vec![
        song("Artist", "Album", "Music/Album", false, true),
        song("Artist", "Album", "Music/Album", false, true),
        song("Other", "Fine", "Music/Fine", true, false),
    ];
    let (supported, skipped) = sample_counts();
    let summary = ScanSummary {
        processed_audio: 3,
        scanned_supported: 3,
        missing_front_cover: 2,
        errors: 0,
        skipped_unsupported: 0,
    };
    let report = build_report(
        OutputFormat::Text,
        "Music",
        &songs,
        &vec![],
        &summary,
        &supported,
        &skipped,
        Some(7),
        String::from("2024-01-02 03:04:05"),
    );
    assert_eq!(report.summary.missing_front_cover_songs, 2);
    assert_eq!(report.summary.missing_front_cover_albums, 1);
    let text = text_report(&report.meta, &report.summary, &report.missing_albums);
    let expected = "Album Cover Check 扫描报告\n\
生成时间：2024-01-02 03:04:05\n\
扫描目录：Music\n\
输出格式：文本\n\
修改时间过滤：最近 7 天\n\
\n\
=== 摘要 ===\n\
已处理音频：3\n\
已扫描支持格式：3\n\
支持格式分布：.flac x1, .mp3 x2\n\
缺少嵌入式封面的歌曲：2\n\
涉及专辑数：1\n\
错误数：0\n\
跳过的未支持音频：0\n\
未支持格式分布：[none]\n\
\n\
=== 缺少嵌入式封面的专辑 ===\n\
说明：下方列表按专辑去重显示，不按歌曲逐条展开。\n\
\n\
艺术家：Artist\t专辑：Album\t文件夹：Music/Album\t检测到外部封面文件：是\n";
    assert_eq!(text, expected);
    let bytes = with_utf8_bom(&text);
    assert_eq!(&bytes[..3], b"\xEF\xBB\xBF");
    assert_eq!(&bytes[3..], text.as_bytes());
}

#[test]
fn error_log_text_is_exact() {
    let (supported, skipped) = sample_counts();
    let summary = ScanSummary {
        processed_audio: 1,
        scanned_supported: 0,
        missing_front_cover: 0,
        errors: 1,
        skipped_unsupported: 0,
    };
    let errors = vec![error("m/A/1.mp3", "A", "broken")];
    let report = build_report(
        OutputFormat::Text,
        "m",
        &vec![],
        &errors,
        &summary,
        &supported,
        &skipped,
        None,
        String::from("now"),
    );
    let text = text_error_log(&report.meta, &report.errors);
    assert_eq!(
        text,
        "Album Cover Check 错误日志\n生成时间：now\n扫描目录：m\n修改时间过滤：无\n错误数量：1\n\n路径：m/A/1.mp3\n专辑：A\n错误：broken\n\n"
    );
}

#[test]
fn csv_reports() {
    let songs = vec![song("Art, Inc", "Album \"1\"", "Music/Album", false, false)];
    let (supported, skipped) = sample_counts();
    let summary = ScanSummary {
        processed_audio: 1,
        scanned_supported: 1,
        missing_front_cover: 1,
        errors: 0,
        skipped_unsupported: 0,
    };
    let report = build_report(
        OutputFormat::Csv,
        "Music",
        &songs,
        &vec![],
        &summary,
        &supported,
        &skipped,
        None,
        String::from("t"),
    );
    let bytes = csv_report(&report.meta, &report.summary, &report.missing_albums);
    let text = String::from_utf8(bytes).unwrap();
    let lines: Vec<&str> = text.lines().collect();
    assert_eq!(lines[0], "分区,字段,值");
    assert_eq!(lines[1], "摘要,生成时间,t");
    assert_eq!(lines[3], "摘要,输出格式,CSV");
    assert_eq!(lines[7], "摘要,支持格式分布,\".flac x1, .mp3 x2\"");
    assert_eq!(lines[14], "缺封面专辑,艺术家,专辑,文件夹,检测到外部封面文件");
    assert_eq!(lines[15], "缺封面专辑,\"Art, Inc\",\"Album \"\"1\"\"\",Music/Album,否");
    assert_eq!(lines.len(), 16);
}

#[test]
fn csv_errors_carry_the_serialized_heading() {
    let empty = String::from_utf8(csv_errors(&vec![])).unwrap();
    assert_eq!(empty, "路径,专辑,错误\n");
    let one = String::from_utf8(csv_errors(&vec![error("m/a.mp3", "A", "bad")])).unwrap();
    assert_eq!(one, "路径,专辑,错误\npath,album,error\nm/a.mp3,A,bad\n");
}

#[test]
fn csv_quotes_only_where_needed() {
    let records = vec![
        vec![String::from("a"), String::from("b,c"), String::from("say \"hi\"")],
        vec![String::from("line\nbreak"), String::from("cr\rhere"), String::from("")],
        vec![String::from("")],
        vec![],
        vec![String::from(""), String::from("")],
    ];
    let text = String::from_utf8(encode_csv(&records)).unwrap();
    assert_eq!(
        text,
        "a,\"b,c\",\"say \"\"hi\"\"\"\n\"line\nbreak\",\"cr\rhere\",\n\"\"\n\"\"\n,\n"
    );
}

#[test]
fn error_log_lists_every_unreadable_file() {
    let (supported, skipped) = sample_counts();
    let summary = ScanSummary {
        processed_audio: 2,
        scanned_supported: 0,
        missing_front_cover: 0,
        errors: 2,
        skipped_unsupported: 0,
    };
    let errors = vec![error("/m/a/1.mp3", "A", "m1"), error("/m/a/2.mp3", "A", "m2")];
    let report = build_report(
        OutputFormat::Text,
        "/m",
        &vec![],
        &errors,
        &summary,
        &supported,
        &skipped,
        None,
        String::from("now"),
    );
    assert_eq!(report.errors.len(), 2);
    let text = text_error_log(&report.meta, &report.errors);
    assert!(text.contains("错误数量：2\n"));
    assert!(text.contains("路径：/m/a/1.mp3\n"));
    assert!(text.contains("路径：/m/a/2.mp3\n"));
}

#[test]
fn reports_are_rendered_per_format() {
    let (supported, skipped) = sample_counts();
    let summary = ScanSummary {
        processed_audio: 1,
        scanned_supported: 0,
        missing_front_cover: 0,
        errors: 1,
        skipped_unsupported: 0,
    };
    let errors = vec![error("m/A/1.mp3", "A", "broken")];
    for format in [OutputFormat::Text, OutputFormat::Csv, OutputFormat::Json] {
        let report = build_report(
            format, "m", &vec![], &errors, &summary, &supported, &skipped, None, String::from("now"),
        );
        match (format, render_reports(format, &report)) {
            (OutputFormat::Text, ReportFiles::Bytes { main, errors: log }) => {
                let text = text_report(&report.meta, &report.summary, &report.missing_albums);
                assert_eq!(main, with_utf8_bom(&text));
                assert_eq!(log, with_utf8_bom(&text_error_log(&report.meta, &report.errors)));
            }
            (OutputFormat::Csv, ReportFiles::Bytes { main, errors: log }) => {
                assert_eq!(main, csv_report(&report.meta, &report.summary, &report.missing_albums));
                assert_eq!(
                    String::from_utf8(log).unwrap(),
                    "路径,专辑,错误\npath,album,error\nm/A/1.mp3,A,broken\n"
                );
            }
            (OutputFormat::Json, ReportFiles::Json) => {}
            _ => panic!("wrong files for the format"),
        }
    }
}
