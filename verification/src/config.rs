//! Settings: the report format, and how command-line values, the config file
//! and the defaults combine.
use vstd::prelude::*;

use crate::paths::{join, opt_chars, path_join};
use crate::text::{concat2, owned};

verus! {

/// The scan root used when neither the command line nor the config file names one.
pub const DEFAULT_SCAN_ROOT: &'static str = "E:\\Music";

/// The output directory used when neither the command line nor the config file names one.
pub const DEFAULT_OUTPUT_DIR: &'static str = "D:\\";

/// The config file looked for in the working directory and beside the program.
pub const CONFIG_FILE_NAME: &'static str = "album_cover_check.toml";

/// The format of the main report and of the error log.
#[derive(Debug, Clone, Copy, PartialEq, Eq, Structural)]
pub enum OutputFormat {
    Text,
    Csv,
    Json,
}

/// The name of a format.
pub open spec fn format_name(f: OutputFormat) -> Seq<char> {
    match f {
        OutputFormat::Text => "text"@,
        OutputFormat::Csv => "csv"@,
        OutputFormat::Json => "json"@,
    }
}

/// The file extension of the reports written in a format.
pub open spec fn format_file_extension(f: OutputFormat) -> Seq<char> {
    match f {
        OutputFormat::Text => "txt"@,
        OutputFormat::Csv => "csv"@,
        OutputFormat::Json => "json"@,
    }
}

impl OutputFormat {
    /// The name of the format.
    pub fn as_str(self) -> (res: &'static str)
        ensures
            res@ == format_name(self),
    {
        match self {
            OutputFormat::Text => "text",
            OutputFormat::Csv => "csv",
            OutputFormat::Json => "json",
        }
    }
}

/// What the command line gives.
pub struct CliArgs {
    pub scan_root: Option<String>,
    pub output_dir: Option<String>,
    pub format: Option<OutputFormat>,
    pub modified_within_days: Option<u64>,
    pub config: Option<String>,
    pub plain: bool,
}

/// What the config file gives.
pub struct FileConfig {
    pub scan_root: Option<String>,
    pub output_dir: Option<String>,
    pub output_format: Option<OutputFormat>,
    pub modified_within_days: Option<u64>,
}

impl FileConfig {
    /// A config file that sets nothing.
    pub fn empty() -> (res: FileConfig)
        ensures
            res.scan_root is None,
            res.output_dir is None,
            res.output_format is None,
            res.modified_within_days is None,
    {
        FileConfig { scan_root: None, output_dir: None, output_format: None, modified_within_days: None }
    }
}

/// The settings of a run once all sources are combined.
pub struct ResolvedConfig {
    pub scan_root: String,
    pub output_dir: String,
    pub output_path: String,
    pub error_path: String,
    pub output_format: OutputFormat,
    pub modified_within_days: Option<u64>,
    pub config_path: Option<String>,
    pub plain: bool,
}

/// The first of two optional values that is present, else `d`.
pub open spec fn first_present<T>(a: Option<T>, b: Option<T>, d: T) -> T {
    match a {
        Some(x) => x,
        None => match b {
            Some(y) => y,
            None => d,
        },
    }
}

/// The first of two optional values that is present.
pub open spec fn either<T>(a: Option<T>, b: Option<T>) -> Option<T> {
    match a {
        Some(x) => Some(x),
        None => b,
    }
}

/// The main report's path in `dir` for a format.
pub open spec fn report_path(dir: Seq<char>, f: OutputFormat) -> Seq<char> {
    path_join(dir, "cover_checklist."@ + format_file_extension(f))
}

/// The error log's path in `dir` for a format.
pub open spec fn error_log_path(dir: Seq<char>, f: OutputFormat) -> Seq<char> {
    path_join(dir, "cover_check_errors."@ + format_file_extension(f))
}

fn pick_string(a: Option<String>, b: Option<String>, d: &str) -> (res: String)
    ensures
        res@ == first_present(opt_chars(a), opt_chars(b), d@),
{
    match a {
        Some(x) => x,
        None => match b {
            Some(y) => y,
            None => owned(d),
        },
    }
}

fn file_extension_exec(f: OutputFormat) -> (res: &'static str)
    ensures
        res@ == format_file_extension(f),
{
    match f {
        OutputFormat::Text => "txt",
        OutputFormat::Csv => "csv",
        OutputFormat::Json => "json",
    }
}

/// The paths of the main report and of the error log in `output_dir`; their
/// names are fixed and end in the format's extension.
pub fn build_report_paths(output_dir: &str, output_format: OutputFormat) -> (res: (String, String))
    ensures
        res.0@ == report_path(output_dir@, output_format),
        res.1@ == error_log_path(output_dir@, output_format),
{
    let extension = file_extension_exec(output_format);
    let main_name = concat2("cover_checklist.", extension);
    let error_name = concat2("cover_check_errors.", extension);
    (join(output_dir, main_name.as_str()), join(output_dir, error_name.as_str()))
}

/// Combines the command line, the config file and the defaults: a value given
/// on the command line wins over one from the config file, which wins over the
/// default.
pub fn resolve_config(cli: CliArgs, file_config: FileConfig, config_path: Option<String>) -> (res: ResolvedConfig)
    ensures
        res.scan_root@ == first_present(opt_chars(cli.scan_root), opt_chars(file_config.scan_root), DEFAULT_SCAN_ROOT@),
        res.output_dir@ == first_present(opt_chars(cli.output_dir), opt_chars(file_config.output_dir), DEFAULT_OUTPUT_DIR@),
        res.output_format == first_present(cli.format, file_config.output_format, OutputFormat::Text),
        res.output_path@ == report_path(res.output_dir@, res.output_format),
        res.error_path@ == error_log_path(res.output_dir@, res.output_format),
        res.modified_within_days == either(cli.modified_within_days, file_config.modified_within_days),
        opt_chars(res.config_path) == opt_chars(config_path),
        res.plain == cli.plain,
{
    let scan_root = pick_string(cli.scan_root, file_config.scan_root, DEFAULT_SCAN_ROOT);
    let output_format = match cli.format {
        Some(f) => f,
        None => match file_config.output_format {
            Some(f) => f,
            None => OutputFormat::Text,
        },
    };
    let output_dir = pick_string(cli.output_dir, file_config.output_dir, DEFAULT_OUTPUT_DIR);
    let (output_path, error_path) = build_report_paths(output_dir.as_str(), output_format);
    let modified_within_days = match cli.modified_within_days {
        Some(d) => Some(d),
        None => file_config.modified_within_days,
    };
    ResolvedConfig {
        scan_root,
        output_dir,
        output_path,
        error_path,
        output_format,
        modified_within_days,
        config_path,
        plain: cli.plain,
    }
}

/// Where the config file is looked for in a directory.
pub fn config_file_in(dir: &str) -> (res: String)
    ensures
        res@ == path_join(dir@, CONFIG_FILE_NAME@),
{
    join(dir, CONFIG_FILE_NAME)
}

} // verus!
