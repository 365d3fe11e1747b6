//! The state of the terminal view and how each event and key changes it. The
//! terminal itself (drawing, reading keys, the worker thread) is the caller's.
use vstd::prelude::*;

use std::collections::VecDeque;

use crate::counts::ExtensionCounts;
use crate::model::{ProgressSnapshot, RunConfig, ScanSummary};
use crate::scanner::ScanEvent;
use crate::config::format_name;
use crate::report::{counts_text, format_extension_counts, format_modified_filter, modified_filter_text};
use crate::text::{concat2, decimal, owned, usize_to_decimal};

verus! {

/// The most lines the activity log keeps; older lines are dropped.
pub const MAX_LOG_LINES: usize = 500;

/// How many lines a page scroll moves.
pub const PAGE_LINES: usize = 8;

/// What the view is told.
pub enum UiEvent {
    Scan(ScanEvent),
    Phase(String),
    Completed {
        elapsed_secs: u64,
        elapsed_subsec_nanos: u32,
        summary: ScanSummary,
        supported_format_counts: ExtensionCounts,
        skipped_format_counts: ExtensionCounts,
    },
    Fatal(String),
}

/// A key press, as far as the view distinguishes keys.
#[derive(Debug, Clone, Copy, PartialEq, Eq, Structural)]
pub enum Key {
    /// 'q' or Escape.
    Close,
    Up,
    Down,
    PageUp,
    PageDown,
    Other,
}

/// The tone in which the phase is shown.
#[derive(Debug, Clone, Copy, PartialEq, Eq, Structural)]
pub enum Tone {
    Failed,
    Done,
    Running,
}

/// Everything the view shows.
pub struct AppState {
    pub config: RunConfig,
    pub logs: VecDeque<String>,
    pub log_scroll: usize,
    pub summary: ScanSummary,
    pub supported_format_counts: ExtensionCounts,
    pub skipped_format_counts: ExtensionCounts,
    pub phase: String,
    pub done: bool,
    pub failed: bool,
    pub failure_message: Option<String>,
    pub elapsed_secs: u64,
    pub elapsed_subsec_nanos: u32,
}

/// The characters of each line of a log.
pub open spec fn lines_view(logs: Seq<String>) -> Seq<Seq<char>> {
    logs.map_values(|l: String| l@)
}

/// A log after `line` is added: the oldest line goes when the log is full.
pub open spec fn logged(logs: Seq<Seq<char>>, line: Seq<char>) -> Seq<Seq<char>> {
    if logs.len() >= MAX_LOG_LINES {
        logs.drop_first().push(line)
    } else {
        logs.push(line)
    }
}

/// The line that an event adds to the log, if it adds one.
pub open spec fn log_line_of(event: UiEvent, scan_root: Seq<char>) -> Option<Seq<char>> {
    match event {
        UiEvent::Scan(ScanEvent::Started) => Some("Scanning started at "@ + scan_root),
        UiEvent::Scan(ScanEvent::Progress(_)) => None,
        UiEvent::Scan(ScanEvent::Finished(_)) => None,
        UiEvent::Scan(ScanEvent::Error(r)) => Some("Error reading "@ + r.path@ + ": "@ + r.message@),
        UiEvent::Scan(ScanEvent::UnsupportedAudio { extension, path }) => Some(
            "Skipped unsupported audio ."@ + extension@ + ": "@ + path@,
        ),
        UiEvent::Phase(p) => Some(p@),
        UiEvent::Completed { .. } => Some("Reports written successfully."@),
        UiEvent::Fatal(m) => Some("Fatal error: "@ + m@),
    }
}

/// Scrolling one line further back, saturating.
pub open spec fn scrolled_up(s: usize, by: usize) -> usize {
    if s + by > usize::MAX {
        usize::MAX
    } else {
        (s + by) as usize
    }
}

/// Scrolling one line further forward, saturating at 0.
pub open spec fn scrolled_down(s: usize, by: usize) -> usize {
    if s < by {
        0
    } else {
        (s - by) as usize
    }
}

fn saturating_add(s: usize, by: usize) -> (r: usize)
    ensures
        r == scrolled_up(s, by),
{
    if s > usize::MAX - by {
        usize::MAX
    } else {
        s + by
    }
}

fn saturating_sub(s: usize, by: usize) -> (r: usize)
    ensures
        r == scrolled_down(s, by),
{
    if s < by {
        0
    } else {
        s - by
    }
}

/// Scrolling back and then forward by the same amount returns to where the
/// view was, unless scrolling back hit the limit.
pub proof fn lemma_scroll_round_trip(s: usize, by: usize)
    requires
        s + by <= usize::MAX,
    ensures
        scrolled_down(scrolled_up(s, by), by) == s,
{
}

/// The lines of the log shown in a window of `visible` lines when scrolled
/// back by `scroll` lines: from `start` to `end`.
pub open spec fn window(total: nat, visible: nat, scroll: nat) -> (nat, nat) {
    let start = if total < visible + scroll { 0 } else { (total - (visible + scroll)) as nat };
    let end = if total < scroll { 0 } else { (total - scroll) as nat };
    (start, end)
}

impl AppState {
    /// The log as lines of characters.
    pub open spec fn log_view(&self) -> Seq<Seq<char>> {
        lines_view(self.logs@)
    }

    /// `self` and `other` differ at most in how far the log is scrolled.
    pub open spec fn same_apart_from_scroll(&self, other: AppState) -> bool {
        &&& self.config == other.config
        &&& self.logs == other.logs
        &&& self.summary == other.summary
        &&& self.supported_format_counts == other.supported_format_counts
        &&& self.skipped_format_counts == other.skipped_format_counts
        &&& self.phase == other.phase
        &&& self.done == other.done
        &&& self.failed == other.failed
        &&& self.failure_message == other.failure_message
        &&& self.elapsed_secs == other.elapsed_secs
        &&& self.elapsed_subsec_nanos == other.elapsed_subsec_nanos
    }

    /// The log never holds more than its limit.
    pub open spec fn wf(&self) -> bool {
        self.logs@.len() <= MAX_LOG_LINES
    }

    /// The view before anything happened.
    pub fn new(config: RunConfig) -> (res: AppState)
        ensures
            res.config == config,
            res.wf(),
            res.log_view() == seq!["Preparing scan..."@],
            res.log_scroll == 0,
            res.summary == ScanSummary::zero_spec(),
            res.supported_format_counts.entries_view().len() == 0,
            res.skipped_format_counts.entries_view().len() == 0,
            res.phase@ == "Preparing"@,
            !res.done,
            !res.failed,
            res.failure_message is None,
            res.elapsed_secs == 0,
            res.elapsed_subsec_nanos == 0,
    {
        let mut logs: VecDeque<String> = VecDeque::new();
        logs.push_back(owned("Preparing scan..."));
        let res = AppState {
            config,
            logs,
            log_scroll: 0,
            summary: ScanSummary::zero(),
            supported_format_counts: ExtensionCounts::new(),
            skipped_format_counts: ExtensionCounts::new(),
            phase: owned("Preparing"),
            done: false,
            failed: false,
            failure_message: None,
            elapsed_secs: 0,
            elapsed_subsec_nanos: 0,
        };
        assert(res.log_view() =~= seq!["Preparing scan..."@]);
        res
    }

    /// Adds a line to the log, dropping the oldest line when it is full.
    pub fn push_log(&mut self, line: String)
        requires
            old(self).wf(),
        ensures
            final(self).wf(),
            final(self).log_view() == logged(old(self).log_view(), line@),
            final(self).config == old(self).config,
            final(self).log_scroll == old(self).log_scroll,
            final(self).summary == old(self).summary,
            final(self).supported_format_counts == old(self).supported_format_counts,
            final(self).skipped_format_counts == old(self).skipped_format_counts,
            final(self).phase == old(self).phase,
            final(self).done == old(self).done,
            final(self).failed == old(self).failed,
            final(self).failure_message == old(self).failure_message,
            final(self).elapsed_secs == old(self).elapsed_secs,
            final(self).elapsed_subsec_nanos == old(self).elapsed_subsec_nanos,
    {
        let ghost before = self.logs@;
        if self.logs.len() == MAX_LOG_LINES {
            let _ = self.logs.pop_front();
            assert(lines_view(self.logs@) =~= lines_view(before).drop_first());
        }
        let ghost mid = self.logs@;
        self.logs.push_back(line);
        assert(lines_view(self.logs@) =~= lines_view(mid).push(line@));
    }

    /// Shows the totals of a progress report.
    pub fn apply_progress(&mut self, snapshot: ProgressSnapshot)
        ensures
            final(self).summary == snapshot.summary,
            final(self).supported_format_counts == snapshot.supported_format_counts,
            final(self).skipped_format_counts == snapshot.skipped_format_counts,
            final(self).logs == old(self).logs,
            final(self).config == old(self).config,
            final(self).log_scroll == old(self).log_scroll,
            final(self).phase == old(self).phase,
            final(self).done == old(self).done,
            final(self).failed == old(self).failed,
            final(self).failure_message == old(self).failure_message,
            final(self).elapsed_secs == old(self).elapsed_secs,
            final(self).elapsed_subsec_nanos == old(self).elapsed_subsec_nanos,
    {
        self.summary = snapshot.summary;
        self.supported_format_counts = snapshot.supported_format_counts;
        self.skipped_format_counts = snapshot.skipped_format_counts;
    }

    /// Takes in an event: every event but progress adds a line to the log;
    /// progress and the end of the scan update the totals; an error counts
    /// at least one error; completion and failure set the phase.
    pub fn handle_event(&mut self, event: UiEvent)
        requires
            old(self).wf(),
        ensures
            final(self).wf(),
            final(self).log_view() == match log_line_of(event, old(self).config.scan_root@) {
                Some(l) => logged(old(self).log_view(), l),
                None => old(self).log_view(),
            },
            final(self).config == old(self).config,
            final(self).log_scroll == old(self).log_scroll,
            !(event is Fatal) ==> final(self).failure_message == old(self).failure_message,
            !(event is Completed) ==> final(self).elapsed_secs == old(self).elapsed_secs
                && final(self).elapsed_subsec_nanos == old(self).elapsed_subsec_nanos,
            match event {
                UiEvent::Scan(ScanEvent::Progress(_)) => true,
                UiEvent::Scan(ScanEvent::Finished(_)) => true,
                UiEvent::Completed { .. } => true,
                _ => final(self).supported_format_counts == old(self).supported_format_counts
                    && final(self).skipped_format_counts == old(self).skipped_format_counts,
            },
            match event {
                UiEvent::Scan(ScanEvent::Started) => final(self).phase@ == "Scanning"@
                    && final(self).summary == old(self).summary
                    && final(self).done == old(self).done && final(self).failed == old(self).failed,
                UiEvent::Scan(ScanEvent::Progress(s)) => final(self).summary == s.summary
                    && final(self).supported_format_counts == s.supported_format_counts
                    && final(self).skipped_format_counts == s.skipped_format_counts
                    && final(self).phase == old(self).phase
                    && final(self).done == old(self).done && final(self).failed == old(self).failed,
                UiEvent::Scan(ScanEvent::Finished(s)) => final(self).summary == s.summary
                    && final(self).supported_format_counts == s.supported_format_counts
                    && final(self).skipped_format_counts == s.skipped_format_counts
                    && final(self).phase == old(self).phase
                    && final(self).done == old(self).done && final(self).failed == old(self).failed,
                UiEvent::Scan(ScanEvent::Error(_)) => final(self).summary == (ScanSummary {
                    errors: if old(self).summary.errors >= 1 { old(self).summary.errors } else { 1 },
                    ..old(self).summary
                }) && final(self).phase == old(self).phase
                    && final(self).done == old(self).done && final(self).failed == old(self).failed,
                UiEvent::Scan(ScanEvent::UnsupportedAudio { .. }) => final(self).summary == old(self).summary
                    && final(self).phase == old(self).phase
                    && final(self).done == old(self).done && final(self).failed == old(self).failed,
                UiEvent::Phase(p) => final(self).phase@ == p@ && final(self).summary == old(self).summary
                    && final(self).done == old(self).done && final(self).failed == old(self).failed,
                UiEvent::Completed { elapsed_secs, elapsed_subsec_nanos, summary, supported_format_counts, skipped_format_counts } =>
                    final(self).phase@ == "Done"@ && final(self).done && final(self).failed == old(self).failed
                    && final(self).summary == summary
                    && final(self).supported_format_counts == supported_format_counts
                    && final(self).skipped_format_counts == skipped_format_counts
                    && final(self).elapsed_secs == elapsed_secs
                    && final(self).elapsed_subsec_nanos == elapsed_subsec_nanos,
                UiEvent::Fatal(m) => final(self).phase@ == "Failed"@ && final(self).failed
                    && final(self).done == old(self).done && final(self).summary == old(self).summary
                    && opt_view(final(self).failure_message) == Some(m@),
            },
    {
        match event {
            UiEvent::Scan(scan_event) => match scan_event {
                ScanEvent::Started => {
                    self.phase = owned("Scanning");
                    let line = concat2("Scanning started at ", self.config.scan_root.as_str());
                    self.push_log(line);
                },
                ScanEvent::Progress(snapshot) => {
                    self.apply_progress(snapshot);
                },
                ScanEvent::Finished(snapshot) => {
                    self.apply_progress(snapshot);
                },
                ScanEvent::Error(record) => {
                    if self.summary.errors < 1 {
                        self.summary.errors = 1;
                    }
                    let mut line = concat2("Error reading ", record.path.as_str());
                    line.append(": ");
                    line.append(record.message.as_str());
                    self.push_log(line);
                },
                ScanEvent::UnsupportedAudio { extension, path } => {
                    let mut line = concat2("Skipped unsupported audio .", extension.as_str());
                    line.append(": ");
                    line.append(path.as_str());
                    self.push_log(line);
                },
            },
            UiEvent::Phase(phase) => {
                self.phase = phase.clone();
                self.push_log(phase);
            },
            UiEvent::Completed {
                elapsed_secs,
                elapsed_subsec_nanos,
                summary,
                supported_format_counts,
                skipped_format_counts,
            } => {
                self.phase = owned("Done");
                self.elapsed_secs = elapsed_secs;
                self.elapsed_subsec_nanos = elapsed_subsec_nanos;
                self.summary = summary;
                self.supported_format_counts = supported_format_counts;
                self.skipped_format_counts = skipped_format_counts;
                self.done = true;
                self.push_log(owned("Reports written successfully."));
            },
            UiEvent::Fatal(message) => {
                self.phase = owned("Failed");
                self.failed = true;
                self.failure_message = Some(message.clone());
                let line = concat2("Fatal error: ", message.as_str());
                self.push_log(line);
            },
        }
    }

    /// The phase as shown: "Failed" once failed, else "Done" once done, else
    /// the current phase.
    pub fn phase_line(&self) -> (res: String)
        ensures
            res@ == (if self.failed {
                "Failed"@
            } else if self.done {
                "Done"@
            } else {
                self.phase@
            }),
    {
        if self.failed {
            return owned("Failed");
        }
        if self.done {
            return owned("Done");
        }
        self.phase.clone()
    }

    /// The tone of the phase: failure first, then completion.
    pub fn tone(&self) -> (res: Tone)
        ensures
            res == (if self.failed {
                Tone::Failed
            } else if self.done {
                Tone::Done
            } else {
                Tone::Running
            }),
    {
        if self.failed {
            Tone::Failed
        } else if self.done {
            Tone::Done
        } else {
            Tone::Running
        }
    }

    /// The title of the totals panel: completion first, then failure.
    pub fn stats_title(&self) -> (res: &'static str)
        ensures
            res@ == (if self.done {
                "Scan Complete"@
            } else if self.failed {
                "Scan Failed"@
            } else {
                "Scanning"@
            }),
    {
        if self.done {
            "Scan Complete"
        } else if self.failed {
            "Scan Failed"
        } else {
            "Scanning"
        }
    }

    /// Scrolls the log one line back.
    pub fn scroll_up(&mut self)
        ensures
            final(self).log_scroll == scrolled_up(old(self).log_scroll, 1),
            final(self).same_apart_from_scroll(*old(self)),
    {
        self.log_scroll = saturating_add(self.log_scroll, 1);
    }

    /// Scrolls the log one line forward.
    pub fn scroll_down(&mut self)
        ensures
            final(self).log_scroll == scrolled_down(old(self).log_scroll, 1),
            final(self).same_apart_from_scroll(*old(self)),
    {
        self.log_scroll = saturating_sub(self.log_scroll, 1);
    }

    /// Scrolls the log a page back.
    pub fn page_up(&mut self)
        ensures
            final(self).log_scroll == scrolled_up(old(self).log_scroll, PAGE_LINES),
            final(self).same_apart_from_scroll(*old(self)),
    {
        self.log_scroll = saturating_add(self.log_scroll, PAGE_LINES);
    }

    /// Scrolls the log a page forward.
    pub fn page_down(&mut self)
        ensures
            final(self).log_scroll == scrolled_down(old(self).log_scroll, PAGE_LINES),
            final(self).same_apart_from_scroll(*old(self)),
    {
        self.log_scroll = saturating_sub(self.log_scroll, PAGE_LINES);
    }

    /// Takes in a key press; returns whether the view closes. It closes on
    /// 'q' or Escape once the work has ended, done or failed, as the hint at
    /// the bottom of the view then says.
    pub fn handle_key(&mut self, key: Key) -> (close: bool)
        ensures
            close == (key == Key::Close && (old(self).done || old(self).failed)),
            final(self).log_scroll == match key {
                Key::Up => scrolled_up(old(self).log_scroll, 1),
                Key::Down => scrolled_down(old(self).log_scroll, 1),
                Key::PageUp => scrolled_up(old(self).log_scroll, PAGE_LINES),
                Key::PageDown => scrolled_down(old(self).log_scroll, PAGE_LINES),
                _ => old(self).log_scroll,
            },
            final(self).same_apart_from_scroll(*old(self)),
    {
        match key {
            Key::Close => {
                return self.done || self.failed;
            },
            Key::Up => self.scroll_up(),
            Key::Down => self.scroll_down(),
            Key::PageUp => self.page_up(),
            Key::PageDown => self.page_down(),
            Key::Other => {},
        }
        false
    }

    /// The range of log lines shown in a window of `visible` lines.
    pub fn visible_log_range(&self, visible: usize) -> (res: (usize, usize))
        requires
            visible + self.log_scroll <= usize::MAX,
        ensures
            res.0 as nat == window(self.logs@.len(), visible as nat, self.log_scroll as nat).0,
            res.1 as nat == window(self.logs@.len(), visible as nat, self.log_scroll as nat).1,
    {
        let total = self.logs.len();
        let start = saturating_sub(total, visible + self.log_scroll);
        let end = saturating_sub(total, self.log_scroll);
        (start, end)
    }

    /// The tone of the totals panel's title: completion first, then failure.
    pub fn stats_tone(&self) -> (res: Tone)
        ensures
            res == (if self.done {
                Tone::Done
            } else if self.failed {
                Tone::Failed
            } else {
                Tone::Running
            }),
    {
        if self.done {
            Tone::Done
        } else if self.failed {
            Tone::Failed
        } else {
            Tone::Running
        }
    }

    /// The settings shown under the title of the session panel.
    pub fn session_lines(&self) -> (res: Vec<String>)
        ensures
            lines_view(res@) == seq![
                "Root: "@ + self.config.scan_root@,
                "Format: "@ + format_name(self.config.output_format) + "    Modified filter: "@
                    + modified_filter_text(self.config.modified_within_days),
                "Output dir: "@ + self.config.output_dir@,
                "Config: "@ + match self.config.config_path {
                    Some(p) => p@,
                    None => "[none]"@,
                },
            ],
    {
        let mut out: Vec<String> = Vec::new();
        out.push(concat2("Root: ", self.config.scan_root.as_str()));
        let mut format_line = concat2("Format: ", self.config.output_format.as_str());
        format_line.append("    Modified filter: ");
        let filter = format_modified_filter(self.config.modified_within_days);
        format_line.append(filter.as_str());
        out.push(format_line);
        out.push(concat2("Output dir: ", self.config.output_dir.as_str()));
        let config_line = match &self.config.config_path {
            Some(p) => concat2("Config: ", p.as_str()),
            None => concat2("Config: ", "[none]"),
        };
        out.push(config_line);
        assert(lines_view(out@) =~= seq![
            "Root: "@ + self.config.scan_root@,
            "Format: "@ + format_name(self.config.output_format) + "    Modified filter: "@
                + modified_filter_text(self.config.modified_within_days),
            "Output dir: "@ + self.config.output_dir@,
            "Config: "@ + match self.config.config_path {
                Some(p) => p@,
                None => "[none]"@,
            },
        ]);
        out
    }

    /// The totals shown in the totals panel, each on a line of its own.
    pub fn totals_lines(&self) -> (res: Vec<String>)
        ensures
            lines_view(res@) == seq![
                "Processed: "@ + decimal(self.summary.processed_audio as nat),
                "Supported scanned: "@ + decimal(self.summary.scanned_supported as nat),
                "Missing embedded cover: "@ + decimal(self.summary.missing_front_cover as nat),
                "Errors: "@ + decimal(self.summary.errors as nat),
                "Unsupported skipped: "@ + decimal(self.summary.skipped_unsupported as nat),
                "Supported formats: "@ + counts_text(self.supported_format_counts.entries_view()),
                "Unsupported formats: "@ + counts_text(self.skipped_format_counts.entries_view()),
            ],
    {
        let mut out: Vec<String> = Vec::new();
        let v = usize_to_decimal(self.summary.processed_audio);
        out.push(concat2("Processed: ", v.as_str()));
        let v = usize_to_decimal(self.summary.scanned_supported);
        out.push(concat2("Supported scanned: ", v.as_str()));
        let v = usize_to_decimal(self.summary.missing_front_cover);
        out.push(concat2("Missing embedded cover: ", v.as_str()));
        let v = usize_to_decimal(self.summary.errors);
        out.push(concat2("Errors: ", v.as_str()));
        let v = usize_to_decimal(self.summary.skipped_unsupported);
        out.push(concat2("Unsupported skipped: ", v.as_str()));
        let v = format_extension_counts(&self.supported_format_counts);
        out.push(concat2("Supported formats: ", v.as_str()));
        let v = format_extension_counts(&self.skipped_format_counts);
        out.push(concat2("Unsupported formats: ", v.as_str()));
        assert(lines_view(out@) =~= seq![
            "Processed: "@ + decimal(self.summary.processed_audio as nat),
            "Supported scanned: "@ + decimal(self.summary.scanned_supported as nat),
            "Missing embedded cover: "@ + decimal(self.summary.missing_front_cover as nat),
            "Errors: "@ + decimal(self.summary.errors as nat),
            "Unsupported skipped: "@ + decimal(self.summary.skipped_unsupported as nat),
            "Supported formats: "@ + counts_text(self.supported_format_counts.entries_view()),
            "Unsupported formats: "@ + counts_text(self.skipped_format_counts.entries_view()),
        ]);
        out
    }

    /// Where the reports go, as shown in the outputs panel.
    pub fn output_lines(&self) -> (res: Vec<String>)
        ensures
            lines_view(res@) == seq![
                "Main report: "@ + self.config.output_path@,
                "Error log: "@ + self.config.error_path@,
            ],
    {
        let mut out: Vec<String> = Vec::new();
        out.push(concat2("Main report: ", self.config.output_path.as_str()));
        out.push(concat2("Error log: ", self.config.error_path.as_str()));
        assert(lines_view(out@) =~= seq![
            "Main report: "@ + self.config.output_path@,
            "Error log: "@ + self.config.error_path@,
        ]);
        out
    }

    /// The hint at the bottom of the totals panel.
    pub fn help_line(&self) -> (res: &'static str)
        ensures
            res@ == (if self.done || self.failed {
                "Press q or Esc to close"@
            } else {
                "Use Up/Down or PageUp/PageDown to scroll"@
            }),
    {
        if self.done || self.failed {
            "Press q or Esc to close"
        } else {
            "Use Up/Down or PageUp/PageDown to scroll"
        }
    }
}

/// The characters of an optional string.
pub open spec fn opt_view(o: Option<String>) -> Option<Seq<char>> {
    match o {
        Some(s) => Some(s@),
        None => None,
    }
}

} // verus!
