//! The records that a scan produces and a report reads.
use vstd::prelude::*;

use crate::config::OutputFormat;
use crate::counts::ExtensionCounts;

verus! {

/// What was read from one supported audio file.
pub struct SongRecord {
    pub album: String,
    pub artist: String,
    pub parent_directory: String,
    pub has_front_cover: bool,
    pub has_external_cover_hint: bool,
}

impl SongRecord {
    /// A copy of this record.
    pub fn copy(&self) -> (res: SongRecord)
        ensures
            res == *self,
    {
        SongRecord {
            album: self.album.clone(),
            artist: self.artist.clone(),
            parent_directory: self.parent_directory.clone(),
            has_front_cover: self.has_front_cover,
            has_external_cover_hint: self.has_external_cover_hint,
        }
    }
}

/// A file (or directory entry) that could not be read.
pub struct ErrorRecord {
    pub path: String,
    pub album: String,
    pub message: String,
}

impl ErrorRecord {
    /// A copy of this record.
    pub fn copy(&self) -> (res: ErrorRecord)
        ensures
            res == *self,
    {
        ErrorRecord {
            path: self.path.clone(),
            album: self.album.clone(),
            message: self.message.clone(),
        }
    }
}

/// Running totals of a scan.
#[derive(Debug, Clone, Copy, PartialEq, Eq, Structural)]
pub struct ScanSummary {
    pub processed_audio: usize,
    pub scanned_supported: usize,
    pub missing_front_cover: usize,
    pub errors: usize,
    pub skipped_unsupported: usize,
}

impl ScanSummary {
    /// All totals zero.
    pub open spec fn zero_spec() -> ScanSummary {
        ScanSummary {
            processed_audio: 0,
            scanned_supported: 0,
            missing_front_cover: 0,
            errors: 0,
            skipped_unsupported: 0,
        }
    }

    /// All totals zero.
    pub fn zero() -> (res: ScanSummary)
        ensures
            res == Self::zero_spec(),
    {
        ScanSummary {
            processed_audio: 0,
            scanned_supported: 0,
            missing_front_cover: 0,
            errors: 0,
            skipped_unsupported: 0,
        }
    }
}

/// Everything a scan collected.
pub struct ScanResult {
    pub scanned_files: Vec<SongRecord>,
    pub errors: Vec<ErrorRecord>,
    pub summary: ScanSummary,
    pub supported_format_counts: ExtensionCounts,
    pub skipped_format_counts: ExtensionCounts,
}

/// Options of a scan.
pub struct ScanOptions {
    pub modified_within_days: Option<u64>,
}

/// The settings a run works with.
pub struct RunConfig {
    pub scan_root: String,
    pub output_dir: String,
    pub output_path: String,
    pub error_path: String,
    pub output_format: OutputFormat,
    pub modified_within_days: Option<u64>,
    pub config_path: Option<String>,
    pub plain: bool,
}

/// One album (folder and album name) that lacks an embedded front cover.
pub struct AlbumReportRow {
    pub artist: String,
    pub album: String,
    pub folder: String,
    pub external_cover_hint: bool,
}

/// The heading facts of a report.
pub struct ReportMeta {
    pub scan_root: String,
    pub output_format: String,
    pub modified_filter: String,
    pub generated_at: String,
}

/// The totals that a report states.
pub struct SummarySnapshot {
    pub processed_audio: usize,
    pub supported_files_scanned: usize,
    pub supported_format_counts: ExtensionCounts,
    pub missing_front_cover_songs: usize,
    pub missing_front_cover_albums: usize,
    pub errors: usize,
    pub unsupported_audio_skipped: usize,
    pub unsupported_format_counts: ExtensionCounts,
}

/// The state of a scan as shown while it runs.
pub struct ProgressSnapshot {
    pub summary: ScanSummary,
    pub supported_format_counts: ExtensionCounts,
    pub skipped_format_counts: ExtensionCounts,
}

} // verus!
