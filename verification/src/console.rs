//! The plain-text console output of a run (without the elapsed time, which is
//! measured and printed by the caller).
use vstd::prelude::*;

use crate::config::format_name;
use crate::counts::ExtensionCounts;
use crate::model::{RunConfig, ScanSummary};
use crate::report::{counts_text, format_extension_counts, format_modified_filter, line, modified_filter_text};
use crate::text::{decimal, owned, usize_to_decimal};

verus! {

fn push_line(out: &mut String, label: &str, value: &str)
    ensures
        final(out)@ == old(out)@ + line(label@, value@),
{
    let ghost before = out@;
    out.append(label);
    out.append(value);
    out.append("\n");
    assert(out@ =~= before + line(label@, value@));
}

/// A run shows the terminal view unless plain output was asked for or
/// standard output is not a terminal.
pub fn should_use_tui(config: &RunConfig, stdout_is_terminal: bool) -> (res: bool)
    ensures
        res == (!config.plain && stdout_is_terminal),
{
    !config.plain && stdout_is_terminal
}

/// The config file's path, or "[none]".
pub open spec fn config_path_text(p: Option<String>) -> Seq<char> {
    match p {
        Some(s) => s@,
        None => "[none]"@,
    }
}

/// What a run prints before it scans.
pub open spec fn run_header(config: RunConfig) -> Seq<char> {
    "Album Cover Check\n"@ + "\n"@ + "Configuration\n"@
        + line("  Scan root: "@, config.scan_root@)
        + line("  Output dir: "@, config.output_dir@)
        + line("  Output format: "@, format_name(config.output_format))
        + line("  Main report: "@, config.output_path@)
        + line("  Error log: "@, config.error_path@)
        + line("  Modified filter: "@, modified_filter_text(config.modified_within_days))
        + line("  Config file: "@, config_path_text(config.config_path))
        + "\n"@
}

/// What a run prints before it scans.
pub fn run_header_text(config: &RunConfig) -> (res: String)
    ensures
        res@ == run_header(*config),
{
    let mut out = owned("Album Cover Check\n");
    out.append("\n");
    out.append("Configuration\n");
    push_line(&mut out, "  Scan root: ", config.scan_root.as_str());
    push_line(&mut out, "  Output dir: ", config.output_dir.as_str());
    push_line(&mut out, "  Output format: ", config.output_format.as_str());
    push_line(&mut out, "  Main report: ", config.output_path.as_str());
    push_line(&mut out, "  Error log: ", config.error_path.as_str());
    let filter = format_modified_filter(config.modified_within_days);
    push_line(&mut out, "  Modified filter: ", filter.as_str());
    match &config.config_path {
        Some(p) => push_line(&mut out, "  Config file: ", p.as_str()),
        None => push_line(&mut out, "  Config file: ", "[none]"),
    }
    out.append("\n");
    out
}

/// What a run prints of its totals, up to the elapsed time; the counts of
/// skipped formats only when some file was skipped.
pub open spec fn summary_head(summary: ScanSummary, supported: ExtensionCounts, skipped: ExtensionCounts) -> Seq<char> {
    let common = "\n"@ + "Scan Complete\n"@
        + line("  Processed audio: "@, decimal(summary.processed_audio as nat))
        + line("  Supported scanned: "@, decimal(summary.scanned_supported as nat))
        + line("  Supported formats: "@, counts_text(supported.entries_view()))
        + line("  Missing embedded Front Cover: "@, decimal(summary.missing_front_cover as nat))
        + line("  Errors: "@, decimal(summary.errors as nat))
        + line("  Unsupported audio skipped: "@, decimal(summary.skipped_unsupported as nat));
    if summary.skipped_unsupported > 0 {
        common + line("  Unsupported formats: "@, counts_text(skipped.entries_view()))
    } else {
        common
    }
}

/// What a run prints of its totals, up to the elapsed time.
pub fn summary_head_text(summary: &ScanSummary, supported: &ExtensionCounts, skipped: &ExtensionCounts) -> (res: String)
    ensures
        res@ == summary_head(*summary, *supported, *skipped),
{
    let mut out = owned("\n");
    out.append("Scan Complete\n");
    let v = usize_to_decimal(summary.processed_audio);
    push_line(&mut out, "  Processed audio: ", v.as_str());
    let v = usize_to_decimal(summary.scanned_supported);
    push_line(&mut out, "  Supported scanned: ", v.as_str());
    let v = format_extension_counts(supported);
    push_line(&mut out, "  Supported formats: ", v.as_str());
    let v = usize_to_decimal(summary.missing_front_cover);
    push_line(&mut out, "  Missing embedded Front Cover: ", v.as_str());
    let v = usize_to_decimal(summary.errors);
    push_line(&mut out, "  Errors: ", v.as_str());
    let v = usize_to_decimal(summary.skipped_unsupported);
    push_line(&mut out, "  Unsupported audio skipped: ", v.as_str());
    if summary.skipped_unsupported > 0 {
        let v = format_extension_counts(skipped);
        push_line(&mut out, "  Unsupported formats: ", v.as_str());
    }
    out
}

/// What a run prints after the elapsed time: where the reports are.
pub open spec fn outputs_tail(config: RunConfig) -> Seq<char> {
    "\n"@ + "Outputs\n"@ + line("  Main report: "@, config.output_path@) + line("  Error log: "@, config.error_path@)
}

/// What a run prints after the elapsed time.
pub fn outputs_tail_text(config: &RunConfig) -> (res: String)
    ensures
        res@ == outputs_tail(*config),
{
    let mut out = owned("\n");
    out.append("Outputs\n");
    push_line(&mut out, "  Main report: ", config.output_path.as_str());
    push_line(&mut out, "  Error log: ", config.error_path.as_str());
    out
}

} // verus!
