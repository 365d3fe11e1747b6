//! The bookkeeping of a library scan. The walk over the file system belongs to
//! the caller; every decision about an entry, and every total, is made here.
use vstd::prelude::*;

use crate::audio::{
    classify_extension, extension_kind, format_of, has_front, normalized_ext, normalized_extension,
    read_song_record, song_record_matches, tag_or, ExtensionKind, TagInfo, UNKNOWN_ALBUM,
    UNKNOWN_ARTIST,
};
use vstd::multiset::Multiset;
use crate::counts::ExtensionCounts;
use crate::model::{ErrorRecord, ProgressSnapshot, ScanResult, ScanSummary, SongRecord};
use crate::paths::{file_name, opt_chars, parent, path_file_name, path_parent};
use crate::text::{is_blank, is_blank_str, owned};

verus! {

/// How often (in processed audio files) progress is reported.
pub const PROGRESS_INTERVAL: usize = 250;

/// The key under which a file without extension is counted.
pub const NO_EXTENSION: &'static str = "[no extension]";

/// What a scan reports while it runs.
pub enum ScanEvent {
    Started,
    Progress(ProgressSnapshot),
    Error(ErrorRecord),
    UnsupportedAudio { extension: String, path: String },
    Finished(ProgressSnapshot),
}

/// An entry of the walk is looked at further only if it is a regular file,
/// not reached through a symbolic link, and not a junk file.
pub open spec fn considered(path: Seq<char>, is_symlink: bool, is_dir: bool, is_file: bool) -> bool {
    !is_symlink && !is_dir && is_file && !match path_file_name(path) {
        None => false,
        Some(name) => crate::audio::junk_name(name),
    }
}

/// Whether a walk entry is looked at further (see [`considered`]).
pub fn should_consider(path: &str, is_symlink: bool, is_dir: bool, is_file: bool) -> (res: bool)
    ensures
        res == considered(path@, is_symlink, is_dir, is_file),
{
    if is_symlink || is_dir {
        return false;
    }
    if !is_file || crate::audio::is_silent_junk_file(path) {
        return false;
    }
    true
}

/// What the scan does with an entry of the walk.
#[derive(Debug, Clone, Copy, PartialEq, Eq, Structural)]
pub enum EntryPlan {
    /// Pass over it.
    Skip,
    /// Read its tags and take in its record.
    ReadTags,
    /// Count it as audio of a format that is not checked.
    CountUnsupported,
}

/// The modification time of an entry is needed only when a time filter is
/// set and the entry is looked at at all.
pub open spec fn modified_time_needed(
    path: Seq<char>,
    is_symlink: bool,
    is_dir: bool,
    is_file: bool,
    modified_since: Option<i128>,
) -> bool {
    modified_since is Some && considered(path, is_symlink, is_dir, is_file)
}

/// Whether the walk must read the modification time of an entry.
pub fn needs_modified_time(
    path: &str,
    is_symlink: bool,
    is_dir: bool,
    is_file: bool,
    modified_since: Option<i128>,
) -> (res: bool)
    ensures
        res == modified_time_needed(path@, is_symlink, is_dir, is_file, modified_since),
{
    modified_since.is_some() && should_consider(path, is_symlink, is_dir, is_file)
}

/// What the scan does with an entry: an entry that is not looked at, or was
/// last modified before the window, is passed over; otherwise its extension
/// decides.
pub open spec fn entry_plan(
    path: Seq<char>,
    is_symlink: bool,
    is_dir: bool,
    is_file: bool,
    modified_since: Option<i128>,
    modified: Option<i128>,
) -> EntryPlan {
    if !considered(path, is_symlink, is_dir, is_file) {
        EntryPlan::Skip
    } else if (modified_since matches Some(since) && (modified matches Some(m) && m < since)) {
        EntryPlan::Skip
    } else {
        match extension_kind(path) {
            ExtensionKind::SupportedAudio => EntryPlan::ReadTags,
            ExtensionKind::UnsupportedAudio => EntryPlan::CountUnsupported,
            ExtensionKind::Ignored => EntryPlan::Skip,
        }
    }
}

/// What the scan does with an entry of the walk, given its kind, the time
/// filter and (when the filter needs it) its modification time.
pub fn plan_entry(
    path: &str,
    is_symlink: bool,
    is_dir: bool,
    is_file: bool,
    modified_since: Option<i128>,
    modified: Option<i128>,
) -> (res: EntryPlan)
    ensures
        res == entry_plan(path@, is_symlink, is_dir, is_file, modified_since, modified),
{
    if !should_consider(path, is_symlink, is_dir, is_file) {
        return EntryPlan::Skip;
    }
    match modified_since {
        Some(since) => {
            if !passes_modified_filter(modified, since) {
                return EntryPlan::Skip;
            }
        },
        None => {},
    }
    match classify_extension(path) {
        ExtensionKind::SupportedAudio => EntryPlan::ReadTags,
        ExtensionKind::UnsupportedAudio => EntryPlan::CountUnsupported,
        ExtensionKind::Ignored => EntryPlan::Skip,
    }
}

/// The length, in seconds, of the window of "the last `days` days"
/// (saturating at the largest `u64`).
pub fn filter_window_secs(days: u64) -> (res: u64)
    ensures
        res == (if days * 86400 > u64::MAX { u64::MAX as int } else { days * 86400 }),
{
    match days.checked_mul(24 * 60 * 60) {
        Some(s) => s,
        None => u64::MAX,
    }
}

/// Whether a file modified at `modified` (nanoseconds since the epoch; `None`
/// when its time could not be read) passes a filter that keeps files modified
/// at or after `modified_since`. A file whose time is unknown passes.
pub fn passes_modified_filter(modified: Option<i128>, modified_since: i128) -> (res: bool)
    ensures
        res == match modified {
            None => true,
            Some(m) => m >= modified_since,
        },
{
    match modified {
        None => true,
        Some(m) => m >= modified_since,
    }
}

/// The key under which `path` is counted: its lower-cased extension, or
/// "[no extension]".
pub open spec fn count_key(path: Seq<char>) -> Seq<char> {
    match normalized_ext(path) {
        Some(e) => e,
        None => NO_EXTENSION@,
    }
}

fn count_key_exec(path: &str) -> (res: String)
    ensures
        res@ == count_key(path@),
{
    match normalized_extension(path) {
        Some(e) => e,
        None => owned(NO_EXTENSION),
    }
}

/// Adds one to the count of `path`'s extension.
pub fn increment_extension_count(counts: &mut ExtensionCounts, path: &str)
    requires
        old(counts).total() < usize::MAX,
    ensures
        final(counts).count_of(count_key(path@)) == old(counts).count_of(count_key(path@)) + 1,
        forall|k: Seq<char>| k != count_key(path@) ==> final(counts).count_of(k) == old(counts).count_of(k),
        final(counts).total() == old(counts).total() + 1,
{
    let key = count_key_exec(path);
    counts.increment(key.as_str());
}

/// The album name an unreadable file is listed under: the name of its folder,
/// unless that is missing or blank.
pub open spec fn fallback_album(path: Seq<char>) -> Seq<char> {
    match path_parent(path) {
        None => UNKNOWN_ALBUM@,
        Some(dir) => match path_file_name(dir) {
            None => UNKNOWN_ALBUM@,
            Some(name) => if is_blank(name) {
                UNKNOWN_ALBUM@
            } else {
                name
            },
        },
    }
}

/// The album name an unreadable file is listed under.
pub fn fallback_album_name(path: &str) -> (res: String)
    ensures
        res@ == fallback_album(path@),
{
    match parent(path) {
        None => owned(UNKNOWN_ALBUM),
        Some(dir) => match file_name(dir.as_str()) {
            None => owned(UNKNOWN_ALBUM),
            Some(name) => if is_blank_str(name.as_str()) {
                owned(UNKNOWN_ALBUM)
            } else {
                name
            },
        },
    }
}

/// Progress is reported after the first processed file and after every
/// multiple of the interval.
pub open spec fn emits_progress(processed: usize) -> bool {
    processed == 1 || processed % PROGRESS_INTERVAL == 0
}

/// Whether progress is reported once `processed` files have been processed.
pub fn should_emit_progress(processed: usize) -> (res: bool)
    ensures
        res == emits_progress(processed),
{
    processed == 1 || processed % PROGRESS_INTERVAL == 0
}

/// The number of songs in `files` without an embedded front cover.
pub open spec fn count_missing(files: Seq<SongRecord>) -> nat
    decreases files.len(),
{
    if files.len() == 0 {
        0
    } else {
        count_missing(files.drop_last()) + if files.last().has_front_cover {
            0nat
        } else {
            1nat
        }
    }
}

proof fn lemma_count_missing_bound(files: Seq<SongRecord>)
    ensures
        count_missing(files) <= files.len(),
    decreases files.len(),
{
    if files.len() > 0 {
        lemma_count_missing_bound(files.drop_last());
    }
}

/// `snap` shows the state of `r`.
pub open spec fn shows(snap: ProgressSnapshot, r: ScanResult) -> bool {
    &&& snap.summary == r.summary
    &&& snap.supported_format_counts.entries_view() == r.supported_format_counts.entries_view()
    &&& snap.skipped_format_counts.entries_view() == r.skipped_format_counts.entries_view()
}

/// `events` is the progress report due once `r` has its state, if one is due.
pub open spec fn progress_due(events: Seq<ScanEvent>, r: ScanResult) -> bool {
    if emits_progress(r.summary.processed_audio) {
        events.len() == 1 && (events[0] matches ScanEvent::Progress(s) && shows(s, r))
    } else {
        events.len() == 0
    }
}

/// A record can be made of the supported file at `path` from what reading its
/// tags gave: the format is checked, the tags were read, and the path has a
/// parent directory.
pub open spec fn song_readable(path: Seq<char>, tags: Result<TagInfo, String>) -> bool {
    format_of(path) is Some && tags is Ok && path_parent(path) is Some
}

/// Some picture of the tags that were read counts as a front cover.
pub open spec fn tags_front(tags: Result<TagInfo, String>) -> bool {
    match tags {
        Ok(t) => has_front(t.pictures@),
        Err(_) => false,
    }
}

/// The message logged when no record can be made of the file at `path`.
pub open spec fn read_error_message(path: Seq<char>, tags: Result<TagInfo, String>) -> Seq<char> {
    if format_of(path) is None {
        "unsupported format for metadata read: "@ + path
    } else {
        match tags {
            Err(m) => m@,
            Ok(_) => "file has no parent directory: "@ + path,
        }
    }
}

// ---------------------------------------------------------------------------
// What an entry adds to a scan
// ---------------------------------------------------------------------------

/// A song record by its view: album, artist, folder, embedded front cover,
/// external cover hint.
pub type SongView = (Seq<char>, Seq<char>, Seq<char>, bool, bool);

/// An error record by its view: path, album, message.
pub type ErrorView = (Seq<char>, Seq<char>, Seq<char>);

pub open spec fn song_view(s: SongRecord) -> SongView {
    (s.album@, s.artist@, s.parent_directory@, s.has_front_cover, s.has_external_cover_hint)
}

pub open spec fn error_view(e: ErrorRecord) -> ErrorView {
    (e.path@, e.album@, e.message@)
}

/// What one entry of the walk adds to a scan.
pub enum EntryEffect {
    /// Nothing: the entry is passed over.
    Nothing,
    /// A scanned song, under the extension it is counted by.
    Song(Seq<char>, SongView),
    /// A supported file whose record could not be made.
    ReadError(ErrorView),
    /// An audio file of a format that is not checked, by its extension.
    Unsupported(Seq<char>),
}

/// The record that the supported file at `path` gives, when it can be made.
pub open spec fn read_song_view(path: Seq<char>, tags: Result<TagInfo, String>, hint: bool) -> SongView {
    match tags {
        Ok(t) => (
            tag_or(opt_chars(t.album), UNKNOWN_ALBUM@),
            tag_or(opt_chars(t.artist), UNKNOWN_ARTIST@),
            match path_parent(path) {
                Some(dir) => dir,
                None => Seq::empty(),
            },
            has_front(t.pictures@),
            hint,
        ),
        Err(_) => (Seq::empty(), Seq::empty(), Seq::empty(), false, hint),
    }
}

/// What a supported file adds, from what reading its tags gave.
pub open spec fn read_effect(path: Seq<char>, tags: Result<TagInfo, String>, hint: bool) -> EntryEffect {
    if song_readable(path, tags) {
        EntryEffect::Song(count_key(path), read_song_view(path, tags, hint))
    } else {
        EntryEffect::ReadError((path, fallback_album(path), read_error_message(path, tags)))
    }
}

/// What an entry of the walk adds to a scan, from its kind, the time filter,
/// its modification time and (for a supported file) what reading its tags
/// gave.
pub open spec fn entry_effect(
    path: Seq<char>,
    is_symlink: bool,
    is_dir: bool,
    is_file: bool,
    modified_since: Option<i128>,
    modified: Option<i128>,
    tags: Result<TagInfo, String>,
    hint: bool,
) -> EntryEffect {
    match entry_plan(path, is_symlink, is_dir, is_file, modified_since, modified) {
        EntryPlan::Skip => EntryEffect::Nothing,
        EntryPlan::ReadTags => read_effect(path, tags, hint),
        EntryPlan::CountUnsupported => EntryEffect::Unsupported(count_key(path)),
    }
}

/// What a scan has collected, without regard to order: the number of audio
/// files processed, the songs scanned, the errors, and the extensions of the
/// scanned and of the skipped files.
pub type ScanTotals = (nat, Multiset<SongView>, Multiset<ErrorView>, Multiset<Seq<char>>, Multiset<Seq<char>>);

/// The totals of a scan that has met nothing.
pub open spec fn no_totals() -> ScanTotals {
    (0, Multiset::empty(), Multiset::empty(), Multiset::empty(), Multiset::empty())
}

/// The totals once one more entry has been met.
pub open spec fn add_effect(t: ScanTotals, e: EntryEffect) -> ScanTotals {
    match e {
        EntryEffect::Nothing => t,
        EntryEffect::Song(k, s) => (t.0 + 1, t.1.insert(s), t.2, t.3.insert(k), t.4),
        EntryEffect::ReadError(x) => (t.0 + 1, t.1, t.2.insert(x), t.3, t.4),
        EntryEffect::Unsupported(k) => (t.0 + 1, t.1, t.2, t.3, t.4.insert(k)),
    }
}

/// The totals of a scan that met entries with these effects, in this order.
pub open spec fn totals_of(effects: Seq<EntryEffect>) -> ScanTotals
    decreases effects.len(),
{
    if effects.len() == 0 {
        no_totals()
    } else {
        add_effect(totals_of(effects.drop_last()), effects.last())
    }
}

proof fn lemma_pushed_multiset<A, V>(s: Seq<A>, x: A, f: spec_fn(A) -> V)
    ensures
        s.push(x).map_values(f).to_multiset() == s.map_values(f).to_multiset().insert(f(x)),
{
    broadcast use vstd::seq_lib::to_multiset_build;

    assert(s.push(x).map_values(f) =~= s.map_values(f).push(f(x)));
}

proof fn lemma_counts_step(before: ExtensionCounts, after: ExtensionCounts, m: Multiset<Seq<char>>, key: Seq<char>)
    requires
        forall|k: Seq<char>| #[trigger] before.count_of(k) == m.count(k),
        after.count_of(key) == before.count_of(key) + 1,
        forall|k: Seq<char>| k != key ==> after.count_of(k) == before.count_of(k),
    ensures
        forall|k: Seq<char>| #[trigger] after.count_of(k) == m.insert(key).count(k),
{
    broadcast use vstd::multiset::group_multiset_axioms;
    broadcast use vstd::multiset::group_multiset_properties;

    assert forall|k: Seq<char>| #[trigger] after.count_of(k) == m.insert(key).count(k) by {
        assert(before.count_of(k) == m.count(k));
    }
}

impl ScanResult {
    /// The totals agree with what was collected: one scanned record per
    /// scanned supported file, one error record per error, a count per
    /// extension that sums to the number of files of its class, and every
    /// processed file either scanned, skipped or failed.
    pub open spec fn wf(&self) -> bool {
        &&& self.scanned_files@.len() == self.summary.scanned_supported
        &&& self.summary.missing_front_cover == count_missing(self.scanned_files@)
        &&& self.errors@.len() == self.summary.errors
        &&& self.supported_format_counts.total() == self.summary.scanned_supported
        &&& self.skipped_format_counts.total() == self.summary.skipped_unsupported
        &&& self.summary.scanned_supported + self.summary.skipped_unsupported <= self.summary.processed_audio
        &&& self.summary.processed_audio <= self.summary.scanned_supported + self.summary.skipped_unsupported
            + self.summary.errors
    }

    /// The scan has collected `t`: as many processed files, the same songs
    /// and errors, and per extension as many scanned and skipped files.
    pub open spec fn holds_totals(&self, t: ScanTotals) -> bool {
        &&& self.summary.processed_audio == t.0
        &&& self.scanned_files@.map_values(|s: SongRecord| song_view(s)).to_multiset() == t.1
        &&& self.errors@.map_values(|e: ErrorRecord| error_view(e)).to_multiset() == t.2
        &&& forall|k: Seq<char>| #[trigger] self.supported_format_counts.count_of(k) == t.3.count(k)
        &&& forall|k: Seq<char>| #[trigger] self.skipped_format_counts.count_of(k) == t.4.count(k)
    }

    /// A scan that has seen nothing yet.
    pub fn new() -> (res: ScanResult)
        ensures
            res.holds_totals(no_totals()),
            res.wf(),
            res.summary == ScanSummary::zero_spec(),
            res.scanned_files@.len() == 0,
            res.errors@.len() == 0,
            res.supported_format_counts.entries_view().len() == 0,
            res.skipped_format_counts.entries_view().len() == 0,
    {
        let res = ScanResult {
            scanned_files: Vec::new(),
            errors: Vec::new(),
            summary: ScanSummary::zero(),
            supported_format_counts: ExtensionCounts::new(),
            skipped_format_counts: ExtensionCounts::new(),
        };
        proof {
            broadcast use vstd::multiset::group_multiset_axioms;
            broadcast use vstd::seq_lib::group_to_multiset_ensures;

            assert(res.scanned_files@.map_values(|s: SongRecord| song_view(s)) =~= Seq::<SongView>::empty());
            assert(res.errors@.map_values(|e: ErrorRecord| error_view(e)) =~= Seq::<ErrorView>::empty());
            assert(Seq::<SongView>::empty().to_multiset() =~= Multiset::empty());
            assert(Seq::<ErrorView>::empty().to_multiset() =~= Multiset::empty());
        }
        res
    }

    /// The current state, for a progress report.
    pub fn progress_snapshot(&self) -> (res: ProgressSnapshot)
        ensures
            shows(res, *self),
    {
        ProgressSnapshot {
            summary: self.summary,
            supported_format_counts: self.supported_format_counts.copy(),
            skipped_format_counts: self.skipped_format_counts.copy(),
        }
    }

    fn maybe_progress(&self) -> (res: Vec<ScanEvent>)
        ensures
            progress_due(res@, *self),
    {
        let mut out: Vec<ScanEvent> = Vec::new();
        if should_emit_progress(self.summary.processed_audio) {
            out.push(ScanEvent::Progress(self.progress_snapshot()));
        }
        out
    }

    /// Takes in the record read from the supported file at `path`.
    pub fn record_song(&mut self, path: &str, song: SongRecord) -> (events: Vec<ScanEvent>)
        requires
            old(self).wf(),
            old(self).summary.processed_audio < usize::MAX,
        ensures
            final(self).wf(),
            final(self).summary == (ScanSummary {
                processed_audio: (old(self).summary.processed_audio + 1) as usize,
                scanned_supported: (old(self).summary.scanned_supported + 1) as usize,
                missing_front_cover: (old(self).summary.missing_front_cover + if song.has_front_cover { 0int } else { 1int }) as usize,
                ..old(self).summary
            }),
            final(self).scanned_files@ == old(self).scanned_files@.push(song),
            final(self).errors@ == old(self).errors@,
            final(self).supported_format_counts.count_of(count_key(path@))
                == old(self).supported_format_counts.count_of(count_key(path@)) + 1,
            forall|k: Seq<char>| k != count_key(path@) ==> final(self).supported_format_counts.count_of(k)
                == old(self).supported_format_counts.count_of(k),
            final(self).skipped_format_counts.entries_view() == old(self).skipped_format_counts.entries_view(),
            progress_due(events@, *final(self)),
    {
        let missing = !song.has_front_cover;
        proof {
            lemma_count_missing_bound(self.scanned_files@);
        }
        self.summary.processed_audio = self.summary.processed_audio + 1;
        self.summary.scanned_supported = self.summary.scanned_supported + 1;
        increment_extension_count(&mut self.supported_format_counts, path);
        if missing {
            self.summary.missing_front_cover = self.summary.missing_front_cover + 1;
        }
        let ghost before = self.scanned_files@;
        self.scanned_files.push(song);
        assert(self.scanned_files@.drop_last() == before);
        self.maybe_progress()
    }

    /// Takes in a supported file at `path` whose tags could not be read.
    pub fn record_read_error(&mut self, path: &str, message: String) -> (events: Vec<ScanEvent>)
        requires
            old(self).wf(),
            old(self).summary.processed_audio < usize::MAX,
            old(self).summary.errors < usize::MAX,
        ensures
            final(self).wf(),
            final(self).summary == (ScanSummary {
                processed_audio: (old(self).summary.processed_audio + 1) as usize,
                errors: (old(self).summary.errors + 1) as usize,
                ..old(self).summary
            }),
            final(self).scanned_files@ == old(self).scanned_files@,
            final(self).errors@.len() == old(self).errors@.len() + 1,
            forall|i: int| 0 <= i < old(self).errors@.len() ==> final(self).errors@[i] == old(self).errors@[i],
            final(self).errors@.last().path@ == path@,
            final(self).errors@.last().album@ == fallback_album(path@),
            final(self).errors@.last().message@ == message@,
            final(self).supported_format_counts.entries_view() == old(self).supported_format_counts.entries_view(),
            final(self).skipped_format_counts.entries_view() == old(self).skipped_format_counts.entries_view(),
            events@.len() >= 1,
            events@[0] matches ScanEvent::Error(e) && e.path@ == path@ && e.album@ == fallback_album(path@)
                && e.message@ == message@,
            progress_due(events@.skip(1), *final(self)),
    {
        self.summary.processed_audio = self.summary.processed_audio + 1;
        self.summary.errors = self.summary.errors + 1;
        let record = ErrorRecord { path: owned(path), album: fallback_album_name(path), message };
        let event_record = record.copy();
        self.errors.push(record);
        let mut events: Vec<ScanEvent> = Vec::new();
        events.push(ScanEvent::Error(event_record));
        let ghost first = events@;
        let mut progress = self.maybe_progress();
        let ghost pv = progress@;
        events.append(&mut progress);
        assert(events@.skip(1) =~= pv);
        events
    }

    /// Takes in a supported audio file at `path` from what reading its tags
    /// gave: its record when one can be made, an error otherwise.
    pub fn record_supported(&mut self, path: &str, tags: Result<TagInfo, String>, external_cover_hint: bool) -> (events: Vec<ScanEvent>)
        requires
            old(self).wf(),
            old(self).summary.processed_audio < usize::MAX,
            !song_readable(path@, tags) ==> old(self).summary.errors < usize::MAX,
        ensures
            final(self).wf(),
            forall|t: ScanTotals| old(self).holds_totals(t) ==> #[trigger] final(self).holds_totals(
                add_effect(t, read_effect(path@, tags, external_cover_hint)),
            ),
            final(self).supported_format_counts.count_of(count_key(path@))
                == old(self).supported_format_counts.count_of(count_key(path@)) + if song_readable(path@, tags) { 1int } else { 0int },
            forall|k: Seq<char>| k != count_key(path@) ==> final(self).supported_format_counts.count_of(k)
                == old(self).supported_format_counts.count_of(k),
            final(self).skipped_format_counts.entries_view() == old(self).skipped_format_counts.entries_view(),
            song_readable(path@, tags) ==> {
                &&& final(self).summary == (ScanSummary {
                    processed_audio: (old(self).summary.processed_audio + 1) as usize,
                    scanned_supported: (old(self).summary.scanned_supported + 1) as usize,
                    missing_front_cover: (old(self).summary.missing_front_cover + if tags_front(tags) { 0int } else { 1int }) as usize,
                    ..old(self).summary
                })
                &&& final(self).scanned_files@.len() == old(self).scanned_files@.len() + 1
                &&& final(self).scanned_files@.drop_last() == old(self).scanned_files@
                &&& (tags matches Ok(t) && song_record_matches(final(self).scanned_files@.last(), path@, t, external_cover_hint))
                &&& final(self).errors@ == old(self).errors@
                &&& progress_due(events@, *final(self))
            },
            !song_readable(path@, tags) ==> {
                &&& final(self).summary == (ScanSummary {
                    processed_audio: (old(self).summary.processed_audio + 1) as usize,
                    errors: (old(self).summary.errors + 1) as usize,
                    ..old(self).summary
                })
                &&& final(self).scanned_files@ == old(self).scanned_files@
                &&& final(self).errors@.len() == old(self).errors@.len() + 1
                &&& final(self).errors@.drop_last() == old(self).errors@
                &&& final(self).errors@.last().path@ == path@
                &&& final(self).errors@.last().album@ == fallback_album(path@)
                &&& final(self).errors@.last().message@ == read_error_message(path@, tags)
                &&& events@.len() >= 1
                &&& (events@[0] matches ScanEvent::Error(e) && e.path@ == path@ && e.album@ == fallback_album(path@)
                    && e.message@ == read_error_message(path@, tags))
                &&& progress_due(events@.skip(1), *final(self))
            },
    {
        let ghost g_tags = tags;
        let ghost start = *self;
        match read_song_record(path, tags, external_cover_hint) {
            Ok(song) => {
                let ghost before = self.scanned_files@;
                let ghost sv = song_view(song);
                let events = self.record_song(path, song);
                assert(self.scanned_files@.drop_last() =~= before);
                proof {
                    assert(sv == read_song_view(path@, g_tags, external_cover_hint));
                    assert forall|t: ScanTotals| start.holds_totals(t) implies #[trigger] self.holds_totals(
                        add_effect(t, read_effect(path@, g_tags, external_cover_hint)),
                    ) by {
                        lemma_pushed_multiset(start.scanned_files@, self.scanned_files@.last(), |s: SongRecord| song_view(s));
                        assert(self.scanned_files@ =~= start.scanned_files@.push(self.scanned_files@.last()));
                        lemma_counts_step(start.supported_format_counts, self.supported_format_counts, t.3, count_key(path@));
                        assert forall|k: Seq<char>| #[trigger] self.skipped_format_counts.count_of(k) == t.4.count(k) by {
                            assert(start.skipped_format_counts.count_of(k) == t.4.count(k));
                        }
                    }
                }
                events
            },
            Err(message) => {
                let ghost before = self.errors@;
                let events = self.record_read_error(path, message);
                assert(self.errors@.drop_last() =~= before);
                proof {
                    assert forall|t: ScanTotals| start.holds_totals(t) implies #[trigger] self.holds_totals(
                        add_effect(t, read_effect(path@, g_tags, external_cover_hint)),
                    ) by {
                        lemma_pushed_multiset(start.errors@, self.errors@.last(), |e: ErrorRecord| error_view(e));
                        assert(self.errors@ =~= start.errors@.push(self.errors@.last()));
                        assert forall|k: Seq<char>| #[trigger] self.supported_format_counts.count_of(k) == t.3.count(k) by {
                            assert(start.supported_format_counts.count_of(k) == t.3.count(k));
                        }
                        assert forall|k: Seq<char>| #[trigger] self.skipped_format_counts.count_of(k) == t.4.count(k) by {
                            assert(start.skipped_format_counts.count_of(k) == t.4.count(k));
                        }
                    }
                }
                events
            },
        }
    }

    /// Takes in an audio file at `path` of a format that is not checked.
    pub fn record_unsupported(&mut self, path: &str) -> (events: Vec<ScanEvent>)
        requires
            old(self).wf(),
            old(self).summary.processed_audio < usize::MAX,
        ensures
            final(self).wf(),
            forall|t: ScanTotals| old(self).holds_totals(t) ==> #[trigger] final(self).holds_totals(
                add_effect(t, EntryEffect::Unsupported(count_key(path@))),
            ),
            final(self).summary == (ScanSummary {
                processed_audio: (old(self).summary.processed_audio + 1) as usize,
                skipped_unsupported: (old(self).summary.skipped_unsupported + 1) as usize,
                ..old(self).summary
            }),
            final(self).scanned_files@ == old(self).scanned_files@,
            final(self).errors@ == old(self).errors@,
            final(self).supported_format_counts.entries_view() == old(self).supported_format_counts.entries_view(),
            final(self).skipped_format_counts.count_of(count_key(path@))
                == old(self).skipped_format_counts.count_of(count_key(path@)) + 1,
            forall|k: Seq<char>| k != count_key(path@) ==> final(self).skipped_format_counts.count_of(k)
                == old(self).skipped_format_counts.count_of(k),
            events@.len() >= 1,
            events@[0] matches ScanEvent::UnsupportedAudio { extension, path: p } && extension@ == count_key(path@)
                && p@ == path@,
            progress_due(events@.skip(1), *final(self)),
    {
        let ghost start = *self;
        self.summary.processed_audio = self.summary.processed_audio + 1;
        self.summary.skipped_unsupported = self.summary.skipped_unsupported + 1;
        let extension = count_key_exec(path);
        increment_extension_count(&mut self.skipped_format_counts, path);
        proof {
            assert forall|t: ScanTotals| start.holds_totals(t) implies #[trigger] self.holds_totals(
                add_effect(t, EntryEffect::Unsupported(count_key(path@))),
            ) by {
                lemma_counts_step(start.skipped_format_counts, self.skipped_format_counts, t.4, count_key(path@));
                assert forall|k: Seq<char>| #[trigger] self.supported_format_counts.count_of(k) == t.3.count(k) by {
                    assert(start.supported_format_counts.count_of(k) == t.3.count(k));
                }
            }
        }
        let mut events: Vec<ScanEvent> = Vec::new();
        events.push(ScanEvent::UnsupportedAudio { extension, path: owned(path) });
        let ghost first = events@;
        let mut progress = self.maybe_progress();
        let ghost pv = progress@;
        events.append(&mut progress);
        assert(events@.skip(1) =~= pv);
        events
    }

    /// Takes in an entry that the walk could not read; it is listed under the
    /// path the walk gave for it, or under the scan root when it gave none.
    pub fn record_walk_error(&mut self, path: Option<String>, root: &str, message: String) -> (event: ScanEvent)
        requires
            old(self).wf(),
            old(self).summary.errors < usize::MAX,
        ensures
            final(self).wf(),
            final(self).summary == (ScanSummary { errors: (old(self).summary.errors + 1) as usize, ..old(self).summary }),
            final(self).scanned_files@ == old(self).scanned_files@,
            final(self).errors@.len() == old(self).errors@.len() + 1,
            forall|i: int| 0 <= i < old(self).errors@.len() ==> final(self).errors@[i] == old(self).errors@[i],
            Some(final(self).errors@.last().path@) == (match path {
                Some(p) => Some(p@),
                None => Some(root@),
            }),
            final(self).errors@.last().album@ == UNKNOWN_ALBUM@,
            final(self).errors@.last().message@ == message@,
            final(self).supported_format_counts.entries_view() == old(self).supported_format_counts.entries_view(),
            final(self).skipped_format_counts.entries_view() == old(self).skipped_format_counts.entries_view(),
            event matches ScanEvent::Error(e) && e.path@ == final(self).errors@.last().path@
                && e.album@ == UNKNOWN_ALBUM@ && e.message@ == message@,
    {
        self.summary.errors = self.summary.errors + 1;
        let path = match path {
            Some(p) => p,
            None => owned(root),
        };
        let record = ErrorRecord { path, album: owned(UNKNOWN_ALBUM), message };
        let event_record = record.copy();
        self.errors.push(record);
        ScanEvent::Error(event_record)
    }

    /// The report that closes a scan.
    pub fn finished(&self) -> (event: ScanEvent)
        ensures
            event matches ScanEvent::Finished(s) && shows(s, *self),
    {
        ScanEvent::Finished(self.progress_snapshot())
    }
}

} // verus!
