use album_cover_check::config::{
    CliArgs, FileConfig, OutputFormat, build_report_paths, config_file_in, resolve_config,
};
use album_cover_check::console::{
    outputs_tail_text, run_header_text, should_use_tui, summary_head_text,
};
use album_cover_check::counts::ExtensionCounts;
use album_cover_check::model::{ErrorRecord, RunConfig, ScanSummary};
use album_cover_check::scanner::ScanEvent;
use album_cover_check::ui::{AppState, Key, Tone, UiEvent};

fn cli() -> CliArgs {
    CliArgs {
        scan_root: None,
        output_dir: None,
        format: None,
        modified_within_days: None,
        config: None,
        plain: false,
    }
}

fn run_config() -> RunConfig {
    RunConfig {
        scan_root: String::from("Music"),
        output_dir: String::from("out"),
        output_path: String::from("out/cover_checklist.txt"),
        error_path: String::from("out/cover_check_errors.txt"),
        output_format: OutputFormat::Text,
        modified_within_days: Some(3),
        config_path: None,
        plain: true,
    }
}

#[test]
fn format_names() {
    assert_eq!(OutputFormat::Text.as_str(), "text");
    assert_eq!(OutputFormat::Csv.as_str(), "csv");
    assert_eq!(OutputFormat::Json.as_str(), "json");
}

#[test]
fn report_paths_have_fixed_names() {
    assert_eq!(
        build_report_paths("out", OutputFormat::Json),
        (String::from("out/cover_checklist.json"), String::from("out/cover_check_errors.json"))
    );
    assert_eq!(
        build_report_paths("out", OutputFormat::Csv),
        (String::from("out/cover_checklist.csv"), String::from("out/cover_check_errors.csv"))
    );
    assert_eq!(config_file_in("dir"), "dir/album_cover_check.toml");
}

#[test]
fn defaults_apply_when_nothing_is_given() {
    let resolved = resolve_config(cli(), FileConfig::empty(), None);
    assert_eq!(resolved.scan_root, "E:\\Music");
    assert_eq!(resolved.output_dir, "D:\\");
    assert_eq!(resolved.output_format, OutputFormat::Text);
    assert_eq!(resolved.modified_within_days, None);
    assert_eq!(resolved.config_path, None);
}

#[test]
fn command_line_wins_over_config_file() {
    let mut args = cli();
    args.scan_root = Some(String::from("cli_root"));
    args.format = Some(OutputFormat::Csv);
    args.plain = true;
    let file = FileConfig {
        scan_root: Some(String::from("file_root")),
        output_dir: Some(String::from("file_out")),
        output_format: Some(OutputFormat::Json),
        modified_within_days: Some(10),
    };
    let resolved = resolve_config(args, file, Some(String::from("cfg.toml")));
    assert_eq!(resolved.scan_root, "cli_root");
    assert_eq!(resolved.output_dir, "file_out");
    assert_eq!(resolved.output_format, OutputFormat::Csv);
    assert_eq!(resolved.output_path, "file_out/cover_checklist.csv");
    assert_eq!(resolved.error_path, "file_out/cover_check_errors.csv");
    assert_eq!(resolved.modified_within_days, Some(10));
    assert_eq!(resolved.config_path, Some(String::from("cfg.toml")));
    assert!(resolved.plain);
}

#[test]
fn console_texts() {
    let config = run_config();
    assert_eq!(
        run_header_text(&config),
        "Album Cover Check\n\nConfiguration\n  Scan root: Music\n  Output dir: out\n  Output format: text\n  Main report: out/cover_checklist.txt\n  Error log: out/cover_check_errors.txt\n  Modified filter: last 3 days\n  Config file: [none]\n\n"
    );
    let summary = ScanSummary {
        processed_audio: 5,
        scanned_supported: 4,
        missing_front_cover: 2,
        errors: 0,
        skipped_unsupported: 1,
    };
    let mut supported = ExtensionCounts::new();
    supported.increment("mp3");
    let mut skipped = ExtensionCounts::new();
    skipped.increment("wav");
    assert_eq!(
        summary_head_text(&summary, &supported, &skipped),
        "\nScan Complete\n  Processed audio: 5\n  Supported scanned: 4\n  Supported formats: .mp3 x1\n  Missing embedded Front Cover: 2\n  Errors: 0\n  Unsupported audio skipped: 1\n  Unsupported formats: .wav x1\n"
    );
    assert_eq!(
        outputs_tail_text(&config),
        "\nOutputs\n  Main report: out/cover_checklist.txt\n  Error log: out/cover_check_errors.txt\n"
    );
}

#[test]
fn the_log_keeps_the_last_500_lines() {
    let mut app = AppState::new(run_config());
    for i in 0..600 {
        app.push_log(format!("line {i}"));
    }
    assert_eq!(app.logs.len(), 500);
    assert_eq!(app.logs.back().unwrap(), "line 599");
    assert_eq!(app.logs.front().unwrap(), "line 100");
}

#[test]
fn events_update_the_view() {
    let mut app = AppState::new(run_config());
    assert_eq!(app.phase_line(), "Preparing");
    app.handle_event(UiEvent::Scan(ScanEvent::Started));
    assert_eq!(app.phase_line(), "Scanning");
    assert_eq!(app.logs.back().unwrap(), "Scanning started at Music");
    app.handle_event(UiEvent::Scan(ScanEvent::Error(ErrorRecord {
        path: String::from("m/a.mp3"),
        album: String::from("m"),
        message: String::from("bad"),
    })));
    assert_eq!(app.summary.errors, 1);
    assert_eq!(app.logs.back().unwrap(), "Error reading m/a.mp3: bad");
    app.handle_event(UiEvent::Scan(ScanEvent::UnsupportedAudio {
        extension: String::from("wav"),
        path: String::from("m/b.wav"),
    }));
    assert_eq!(app.logs.back().unwrap(), "Skipped unsupported audio .wav: m/b.wav");
    assert!(!app.handle_key(Key::Close));
    app.handle_event(UiEvent::Completed {
        elapsed_secs: 2,
        elapsed_subsec_nanos: 0,
        summary: ScanSummary {
            processed_audio: 1,
            scanned_supported: 1,
            missing_front_cover: 0,
            errors: 0,
            skipped_unsupported: 0,
        },
        supported_format_counts: ExtensionCounts::new(),
        skipped_format_counts: ExtensionCounts::new(),
    });
    assert_eq!(app.phase_line(), "Done");
    assert_eq!(app.tone(), Tone::Done);
    assert_eq!(app.stats_title(), "Scan Complete");
    assert_eq!(app.help_line(), "Press q or Esc to close");
    assert_eq!(app.logs.back().unwrap(), "Reports written successfully.");
    assert!(app.handle_key(Key::Close));
}

#[test]
fn failure_is_shown() {
    let mut app = AppState::new(run_config());
    app.handle_event(UiEvent::Fatal(String::from("boom")));
    assert_eq!(app.phase_line(), "Failed");
    assert_eq!(app.tone(), Tone::Failed);
    assert_eq!(app.failure_message, Some(String::from("boom")));
    assert_eq!(app.logs.back().unwrap(), "Fatal error: boom");
    assert_eq!(app.help_line(), "Press q or Esc to close");
    assert!(app.handle_key(Key::Close));
}

#[test]
fn scrolling_saturates_and_round_trips() {
    let mut app = AppState::new(run_config());
    app.handle_key(Key::Down);
    assert_eq!(app.log_scroll, 0);
    app.handle_key(Key::PageUp);
    assert_eq!(app.log_scroll, 8);
    app.handle_key(Key::Up);
    app.handle_key(Key::Down);
    assert_eq!(app.log_scroll, 8);
    app.handle_key(Key::PageDown);
    assert_eq!(app.log_scroll, 0);
    app.log_scroll = usize::MAX;
    app.handle_key(Key::Up);
    assert_eq!(app.log_scroll, usize::MAX);
}

#[test]
fn visible_window_of_the_log() {
    let mut app = AppState::new(run_config());
    for i in 0..20 {
        app.push_log(format!("{i}"));
    }
    assert_eq!(app.visible_log_range(5), (16, 21));
    app.log_scroll = 3;
    assert_eq!(app.visible_log_range(5), (13, 18));
    app.log_scroll = 30;
    assert_eq!(app.visible_log_range(5), (0, 0));
}

#[test]
fn terminal_view_only_when_asked_and_possible() {
    let mut config = run_config();
    config.plain = false;
    assert!(should_use_tui(&config, true));
    assert!(!should_use_tui(&config, false));
    config.plain = true;
    assert!(!should_use_tui(&config, true));
}

#[test]
fn the_view_keeps_its_settings() {
    let app = AppState::new(run_config());
    assert_eq!(app.config.scan_root, run_config().scan_root);
    assert_eq!(app.config.output_path, run_config().output_path);
}
