//! What the reports say: the albums lacking an embedded front cover (one line
//! per folder and album), the errors (every file that could not be read), the totals,
//! and their rendering as text and CSV.
use vstd::prelude::*;

use crate::config::{format_name, OutputFormat};
use crate::counts::{CountView, ExtensionCounts};
use crate::grouping::{first_of_each_key, first_of_each_sorted, keys_view, GroupKey, KeyView};
use crate::model::{AlbumReportRow, ErrorRecord, ReportMeta, ScanSummary, SongRecord, SummarySnapshot};
use crate::paths::{components, folder_key, parent, path_parent};
use vstd::string::StringSliceAdditionalSpecFns;
use vstd::utf8::encode_utf8;
use crate::text::{chars_of, decimal, owned, replace, replace_all, str_equal, u64_to_decimal, usize_to_decimal};

verus! {

// ---------------------------------------------------------------------------
// Small formatters
// ---------------------------------------------------------------------------

/// One count as the report shows it: ".mp3 x12".
pub open spec fn count_item(e: CountView) -> Seq<char> {
    "."@ + e.0 + " x"@ + decimal(e.1)
}

/// The counts joined with ", ", in ascending key order.
pub open spec fn joined_counts(s: Seq<CountView>) -> Seq<char>
    decreases s.len(),
{
    if s.len() == 0 {
        Seq::empty()
    } else if s.len() == 1 {
        count_item(s[0])
    } else {
        joined_counts(s.drop_last()) + ", "@ + count_item(s.last())
    }
}

/// The counts as the report shows them; "[none]" when there are none.
pub open spec fn counts_text(s: Seq<CountView>) -> Seq<char> {
    if s.len() == 0 {
        "[none]"@
    } else {
        joined_counts(s)
    }
}

/// The counts per extension as one line: ".flac x3, .mp3 x12", or "[none]".
pub fn format_extension_counts(counts: &ExtensionCounts) -> (res: String)
    ensures
        res@ == counts_text(counts.entries_view()),
{
    let ghost s = counts.entries_view();
    if counts.is_empty() {
        return owned("[none]");
    }
    let mut out = String::new();
    let n = counts.len();
    for i in 0..n
        invariant
            s == counts.entries_view(),
            n == s.len(),
            n > 0,
            i == 0 ==> out@ == Seq::<char>::empty(),
            i > 0 ==> out@ == joined_counts(s.take(i as int)),
    {
        let (key, count) = counts.entry(i);
        let ghost before = out@;
        if i > 0 {
            out.append(", ");
        }
        out.append(".");
        out.append(key);
        out.append(" x");
        let digits = usize_to_decimal(count);
        out.append(digits.as_str());
        assert(s.take(i + 1).drop_last() =~= s.take(i as int));
        assert(s.take(i + 1).last() == s[i as int]);
        if i == 0 {
            assert(out@ =~= count_item(s[0]));
        } else {
            assert(out@ =~= joined_counts(s.take(i as int)) + ", "@ + count_item(s[i as int]));
        }
    }
    assert(s.take(n as int) =~= s);
    out
}

/// The modified-time filter in words: "last 30 days", or "none".
pub open spec fn modified_filter_text(days: Option<u64>) -> Seq<char> {
    match days {
        Some(d) => "last "@ + decimal(d as nat) + " days"@,
        None => "none"@,
    }
}

/// The modified-time filter in words.
pub fn format_modified_filter(days: Option<u64>) -> (res: String)
    ensures
        res@ == modified_filter_text(days),
{
    match days {
        Some(d) => {
            let mut out = owned("last ");
            let digits = u64_to_decimal(d);
            out.append(digits.as_str());
            out.append(" days");
            out
        },
        None => owned("none"),
    }
}

/// "是" for yes, "否" for no.
pub open spec fn yes_no_text(value: bool) -> Seq<char> {
    if value {
        "是"@
    } else {
        "否"@
    }
}

/// Yes or no, in Chinese.
pub fn yes_no_cn(value: bool) -> (res: &'static str)
    ensures
        res@ == yes_no_text(value),
{
    if value {
        "是"
    } else {
        "否"
    }
}

/// The label of an output format name; an unknown name stays as it is.
pub open spec fn output_format_label(value: Seq<char>) -> Seq<char> {
    if value == "text"@ {
        "文本"@
    } else if value == "csv"@ {
        "CSV"@
    } else if value == "json"@ {
        "JSON"@
    } else {
        value
    }
}

/// The label of an output format name.
pub fn format_output_format_label(value: &str) -> (res: String)
    ensures
        res@ == output_format_label(value@),
{
    if str_equal(value, "text") {
        owned("文本")
    } else if str_equal(value, "csv") {
        owned("CSV")
    } else if str_equal(value, "json") {
        owned("JSON")
    } else {
        owned(value)
    }
}

/// The modified-time filter in Chinese: "无" for "none", and "last N days"
/// rewritten as "最近 N 天".
pub open spec fn modified_filter_label(value: Seq<char>) -> Seq<char> {
    if value == "none"@ {
        "无"@
    } else {
        replace_all(replace_all(value, "last "@, "最近 "@), " days"@, " 天"@)
    }
}

/// The modified-time filter in Chinese.
pub fn format_modified_filter_label(value: &str) -> (res: String)
    ensures
        res@ == modified_filter_label(value@),
{
    if str_equal(value, "none") {
        return owned("无");
    }
    proof {
        reveal_strlit("last ");
        reveal_strlit(" days");
    }
    let first = replace(value, "last ", "最近 ");
    replace(first.as_str(), " days", " 天")
}

// ---------------------------------------------------------------------------
// Grouping
// ---------------------------------------------------------------------------

/// The grouping key of a song: its folder and its album.
pub open spec fn song_key(s: SongRecord) -> KeyView {
    (folder_key(s.parent_directory@), s.album@)
}

/// The grouping keys of a sequence of songs.
pub open spec fn song_keys(songs: Seq<SongRecord>) -> Seq<KeyView> {
    songs.map_values(|s: SongRecord| song_key(s))
}

/// `row` lists the album of `song`.
pub open spec fn row_of_song(row: AlbumReportRow, song: SongRecord) -> bool {
    &&& row.artist@ == song.artist@
    &&& row.album@ == song.album@
    &&& row.folder@ == song.parent_directory@
    &&& row.external_cover_hint == song.has_external_cover_hint
}

/// `idx` lists the first song of every distinct (folder, album) of `songs`,
/// in ascending order, and `rows` is made from those songs in that order.
pub open spec fn rows_picked(rows: Seq<AlbumReportRow>, songs: Seq<SongRecord>, idx: Seq<usize>) -> bool {
    &&& first_of_each_sorted(song_keys(songs), idx)
    &&& idx.len() == rows.len()
    &&& forall|i: int| 0 <= i < rows.len() ==> row_of_song(#[trigger] rows[i], songs[idx[i] as int])
}

/// `rows` holds, in ascending order of folder and album, one row for every
/// distinct (folder, album) of `songs`, taken from its first song.
pub open spec fn album_rows(rows: Seq<AlbumReportRow>, songs: Seq<SongRecord>) -> bool {
    exists|idx: Seq<usize>| rows_picked(rows, songs, idx)
}

/// One row per (folder, album) among `songs`, from the first song of each, in
/// ascending order of folder (as paths are ordered) and then album.
pub fn dedupe_missing_albums(songs: &Vec<SongRecord>) -> (res: Vec<AlbumReportRow>)
    ensures
        album_rows(res@, songs@),
{
    let mut keys: Vec<GroupKey> = Vec::new();
    for i in 0..songs.len()
        invariant
            keys@.len() == i,
            forall|j: int| 0 <= j < i ==> (#[trigger] keys@[j])@ == song_key(songs@[j]),
    {
        let folder = components(songs[i].parent_directory.as_str());
        let name = chars_of(songs[i].album.as_str());
        keys.push(GroupKey { folder, name });
    }
    assert(keys_view(keys@) =~= song_keys(songs@));
    let idx = first_of_each_key(&keys);
    let mut rows: Vec<AlbumReportRow> = Vec::new();
    for i in 0..idx.len()
        invariant
            first_of_each_sorted(song_keys(songs@), idx@),
            keys_view(keys@).len() == songs@.len(),
            rows@.len() == i,
            forall|j: int| 0 <= j < i ==> row_of_song(#[trigger] rows@[j], songs@[idx@[j] as int]),
    {
        let song = &songs[idx[i]];
        rows.push(
            AlbumReportRow {
                artist: song.artist.clone(),
                album: song.album.clone(),
                folder: song.parent_directory.clone(),
                external_cover_hint: song.has_external_cover_hint,
            },
        );
    }
    assert(rows_picked(rows@, songs@, idx@));
    rows
}

/// The folder an error is grouped under: the parent of its path, or the path
/// itself when it has none.
pub open spec fn error_folder(path: Seq<char>) -> Seq<char> {
    match path_parent(path) {
        Some(dir) => dir,
        None => path,
    }
}

/// The grouping key of an error: its folder and its album.
pub open spec fn error_key(e: ErrorRecord) -> KeyView {
    (folder_key(error_folder(e.path@)), e.album@)
}

/// The grouping keys of a sequence of errors.
pub open spec fn error_keys(errors: Seq<ErrorRecord>) -> Seq<KeyView> {
    errors.map_values(|e: ErrorRecord| error_key(e))
}

/// `res` holds, in ascending order of folder and album, the first error of
/// every distinct (folder, album) of `errors`.
pub open spec fn grouped_errors(res: Seq<ErrorRecord>, errors: Seq<ErrorRecord>) -> bool {
    exists|idx: Seq<usize>|
        {
            &&& first_of_each_sorted(error_keys(errors), idx)
            &&& idx.len() == res.len()
            &&& forall|i: int| 0 <= i < res.len() ==> #[trigger] res[i] == errors[idx[i] as int]
        }
}

/// The first error of every (folder, album), in ascending order of folder and
/// then album: one entry per album for a caller that wants no more. The error
/// log itself lists every error (see `build_report`).
pub fn dedupe_errors(errors: &Vec<ErrorRecord>) -> (res: Vec<ErrorRecord>)
    ensures
        grouped_errors(res@, errors@),
{
    let mut keys: Vec<GroupKey> = Vec::new();
    for i in 0..errors.len()
        invariant
            keys@.len() == i,
            forall|j: int| 0 <= j < i ==> (#[trigger] keys@[j])@ == error_key(errors@[j]),
    {
        let path = errors[i].path.as_str();
        let folder_path = match parent(path) {
            Some(dir) => dir,
            None => owned(path),
        };
        let folder = components(folder_path.as_str());
        let name = chars_of(errors[i].album.as_str());
        keys.push(GroupKey { folder, name });
    }
    assert(keys_view(keys@) =~= error_keys(errors@));
    let idx = first_of_each_key(&keys);
    let mut out: Vec<ErrorRecord> = Vec::new();
    for i in 0..idx.len()
        invariant
            first_of_each_sorted(error_keys(errors@), idx@),
            keys_view(keys@).len() == errors@.len(),
            out@.len() == i,
            forall|j: int| 0 <= j < i ==> #[trigger] out@[j] == errors@[idx@[j] as int],
    {
        out.push(errors[idx[i]].copy());
    }
    assert(grouped_errors(out@, errors@));
    out
}

// ---------------------------------------------------------------------------
// The report's data
// ---------------------------------------------------------------------------

/// The songs of `songs` without an embedded front cover, in order.
pub open spec fn missing_only(songs: Seq<SongRecord>) -> Seq<SongRecord>
    decreases songs.len(),
{
    if songs.len() == 0 {
        Seq::empty()
    } else if songs.last().has_front_cover {
        missing_only(songs.drop_last())
    } else {
        missing_only(songs.drop_last()).push(songs.last())
    }
}

/// The songs without an embedded front cover, in order. An external cover
/// image does not count as a cover.
pub fn missing_songs(songs: &Vec<SongRecord>) -> (res: Vec<SongRecord>)
    ensures
        res@ == missing_only(songs@),
{
    let mut out: Vec<SongRecord> = Vec::new();
    for i in 0..songs.len()
        invariant
            out@ == missing_only(songs@.take(i as int)),
    {
        assert(songs@.take(i + 1).drop_last() =~= songs@.take(i as int));
        if !songs[i].has_front_cover {
            out.push(songs[i].copy());
        }
    }
    assert(songs@.take(songs@.len() as int) =~= songs@);
    out
}

/// Everything a report states.
pub struct ReportData {
    pub meta: ReportMeta,
    pub summary: SummarySnapshot,
    pub missing_albums: Vec<AlbumReportRow>,
    pub errors: Vec<ErrorRecord>,
}

/// What the report states, from what the scan collected. The error log lists
/// every audio file whose metadata could not be read, in the order in which
/// the scan met them.
pub fn build_report(
    output_format: OutputFormat,
    scan_root: &str,
    songs: &Vec<SongRecord>,
    errors: &Vec<ErrorRecord>,
    scan_summary: &ScanSummary,
    supported_format_counts: &ExtensionCounts,
    skipped_format_counts: &ExtensionCounts,
    modified_within_days: Option<u64>,
    generated_at: String,
) -> (res: ReportData)
    ensures
        res.meta.scan_root@ == scan_root@,
        res.meta.output_format@ == format_name(output_format),
        res.meta.modified_filter@ == modified_filter_text(modified_within_days),
        res.meta.generated_at@ == generated_at@,
        res.summary.processed_audio == scan_summary.processed_audio,
        res.summary.supported_files_scanned == scan_summary.scanned_supported,
        res.summary.supported_format_counts.entries_view() == supported_format_counts.entries_view(),
        res.summary.missing_front_cover_songs == missing_only(songs@).len(),
        res.summary.missing_front_cover_albums == res.missing_albums@.len(),
        res.summary.errors == scan_summary.errors,
        res.summary.unsupported_audio_skipped == scan_summary.skipped_unsupported,
        res.summary.unsupported_format_counts.entries_view() == skipped_format_counts.entries_view(),
        album_rows(res.missing_albums@, missing_only(songs@)),
        res.errors@ == errors@,
{
    let meta = ReportMeta {
        scan_root: owned(scan_root),
        output_format: owned(output_format.as_str()),
        modified_filter: format_modified_filter(modified_within_days),
        generated_at,
    };
    let missing = missing_songs(songs);
    let missing_albums = dedupe_missing_albums(&missing);
    let mut listed_errors: Vec<ErrorRecord> = Vec::new();
    for i in 0..errors.len()
        invariant
            listed_errors@ == errors@.take(i as int),
    {
        listed_errors.push(errors[i].copy());
        assert(errors@.take(i + 1) =~= errors@.take(i as int).push(errors@[i as int]));
    }
    assert(errors@.take(errors@.len() as int) =~= errors@);
    let summary = SummarySnapshot {
        processed_audio: scan_summary.processed_audio,
        supported_files_scanned: scan_summary.scanned_supported,
        supported_format_counts: supported_format_counts.copy(),
        missing_front_cover_songs: missing.len(),
        missing_front_cover_albums: missing_albums.len(),
        errors: scan_summary.errors,
        unsupported_audio_skipped: scan_summary.skipped_unsupported,
        unsupported_format_counts: skipped_format_counts.copy(),
    };
    ReportData { meta, summary, missing_albums, errors: listed_errors }
}


// ---------------------------------------------------------------------------
// Text rendering
// ---------------------------------------------------------------------------

/// A line of the text report: a label, a value and a line break.
pub open spec fn line(label: Seq<char>, value: Seq<char>) -> Seq<char> {
    label + value + "\n"@
}

fn push_line(out: &mut String, label: &str, value: &str)
    ensures
        final(out)@ == old(out)@ + line(label@, value@),
{
    let ghost before = out@;
    out.append(label);
    out.append(value);
    out.append("\n");
    assert(out@ =~= before + line(label@, value@));
}

/// The head of the text report: title, settings and totals.
pub open spec fn text_report_head(meta: ReportMeta, summary: SummarySnapshot) -> Seq<char> {
    "Album Cover Check 扫描报告\n"@
        + line("生成时间："@, meta.generated_at@)
        + line("扫描目录："@, meta.scan_root@)
        + line("输出格式："@, output_format_label(meta.output_format@))
        + line("修改时间过滤："@, modified_filter_label(meta.modified_filter@))
        + "\n"@
        + "=== 摘要 ===\n"@
        + line("已处理音频："@, decimal(summary.processed_audio as nat))
        + line("已扫描支持格式："@, decimal(summary.supported_files_scanned as nat))
        + line("支持格式分布："@, counts_text(summary.supported_format_counts.entries_view()))
        + line("缺少嵌入式封面的歌曲："@, decimal(summary.missing_front_cover_songs as nat))
        + line("涉及专辑数："@, decimal(summary.missing_front_cover_albums as nat))
        + line("错误数："@, decimal(summary.errors as nat))
        + line("跳过的未支持音频："@, decimal(summary.unsupported_audio_skipped as nat))
        + line("未支持格式分布："@, counts_text(summary.unsupported_format_counts.entries_view()))
        + "\n"@
        + "=== 缺少嵌入式封面的专辑 ===\n"@
        + "说明：下方列表按专辑去重显示，不按歌曲逐条展开。\n"@
        + "\n"@
}

/// The line of one album in the text report.
pub open spec fn album_line(row: AlbumReportRow) -> Seq<char> {
    "艺术家："@ + row.artist@ + "\t专辑："@ + row.album@ + "\t文件夹："@ + row.folder@
        + "\t检测到外部封面文件："@ + yes_no_text(row.external_cover_hint) + "\n"@
}

/// The lines of all albums, in order.
pub open spec fn album_lines(rows: Seq<AlbumReportRow>) -> Seq<char>
    decreases rows.len(),
{
    if rows.len() == 0 {
        Seq::empty()
    } else {
        album_lines(rows.drop_last()) + album_line(rows.last())
    }
}

/// The whole text report.
pub open spec fn text_report_text(meta: ReportMeta, summary: SummarySnapshot, rows: Seq<AlbumReportRow>) -> Seq<char> {
    text_report_head(meta, summary) + album_lines(rows)
}

/// The main report as text.
#[verifier::rlimit(40)]
pub fn text_report(meta: &ReportMeta, summary: &SummarySnapshot, missing_albums: &Vec<AlbumReportRow>) -> (res: String)
    ensures
        res@ == text_report_text(*meta, *summary, missing_albums@),
{
    let mut out = owned("Album Cover Check 扫描报告\n");
    push_line(&mut out, "生成时间：", meta.generated_at.as_str());
    push_line(&mut out, "扫描目录：", meta.scan_root.as_str());
    let format_label = format_output_format_label(meta.output_format.as_str());
    push_line(&mut out, "输出格式：", format_label.as_str());
    let filter_label = format_modified_filter_label(meta.modified_filter.as_str());
    push_line(&mut out, "修改时间过滤：", filter_label.as_str());
    out.append("\n");
    out.append("=== 摘要 ===\n");
    let v = usize_to_decimal(summary.processed_audio);
    push_line(&mut out, "已处理音频：", v.as_str());
    let v = usize_to_decimal(summary.supported_files_scanned);
    push_line(&mut out, "已扫描支持格式：", v.as_str());
    let v = format_extension_counts(&summary.supported_format_counts);
    push_line(&mut out, "支持格式分布：", v.as_str());
    let v = usize_to_decimal(summary.missing_front_cover_songs);
    push_line(&mut out, "缺少嵌入式封面的歌曲：", v.as_str());
    let v = usize_to_decimal(summary.missing_front_cover_albums);
    push_line(&mut out, "涉及专辑数：", v.as_str());
    let v = usize_to_decimal(summary.errors);
    push_line(&mut out, "错误数：", v.as_str());
    let v = usize_to_decimal(summary.unsupported_audio_skipped);
    push_line(&mut out, "跳过的未支持音频：", v.as_str());
    let v = format_extension_counts(&summary.unsupported_format_counts);
    push_line(&mut out, "未支持格式分布：", v.as_str());
    out.append("\n");
    out.append("=== 缺少嵌入式封面的专辑 ===\n");
    out.append("说明：下方列表按专辑去重显示，不按歌曲逐条展开。\n");
    out.append("\n");
    let ghost head = out@;
    assert(head == text_report_head(*meta, *summary));
    for i in 0..missing_albums.len()
        invariant
            head == text_report_head(*meta, *summary),
            out@ == head + album_lines(missing_albums@.take(i as int)),
    {
        let row = &missing_albums[i];
        let ghost before = out@;
        out.append("艺术家：");
        out.append(row.artist.as_str());
        out.append("\t专辑：");
        out.append(row.album.as_str());
        out.append("\t文件夹：");
        out.append(row.folder.as_str());
        out.append("\t检测到外部封面文件：");
        out.append(yes_no_cn(row.external_cover_hint));
        out.append("\n");
        assert(missing_albums@.take(i + 1).drop_last() =~= missing_albums@.take(i as int));
        assert(out@ =~= before + album_line(missing_albums@[i as int]));
        assert(out@ =~= head + album_lines(missing_albums@.take(i + 1)));
    }
    assert(missing_albums@.take(missing_albums@.len() as int) =~= missing_albums@);
    out
}

/// The head of the text error log.
pub open spec fn text_error_head(meta: ReportMeta, count: nat) -> Seq<char> {
    "Album Cover Check 错误日志\n"@
        + line("生成时间："@, meta.generated_at@)
        + line("扫描目录："@, meta.scan_root@)
        + line("修改时间过滤："@, modified_filter_label(meta.modified_filter@))
        + line("错误数量："@, decimal(count))
        + "\n"@
}

/// The entry of one error in the text error log.
pub open spec fn error_entry(e: ErrorRecord) -> Seq<char> {
    line("路径："@, e.path@) + line("专辑："@, e.album@) + line("错误："@, e.message@) + "\n"@
}

/// The entries of all errors, in order.
pub open spec fn error_entries(errors: Seq<ErrorRecord>) -> Seq<char>
    decreases errors.len(),
{
    if errors.len() == 0 {
        Seq::empty()
    } else {
        error_entries(errors.drop_last()) + error_entry(errors.last())
    }
}

/// The error log as text.
pub fn text_error_log(meta: &ReportMeta, errors: &Vec<ErrorRecord>) -> (res: String)
    ensures
        res@ == text_error_head(*meta, errors@.len()) + error_entries(errors@),
{
    let mut out = owned("Album Cover Check 错误日志\n");
    push_line(&mut out, "生成时间：", meta.generated_at.as_str());
    push_line(&mut out, "扫描目录：", meta.scan_root.as_str());
    let filter_label = format_modified_filter_label(meta.modified_filter.as_str());
    push_line(&mut out, "修改时间过滤：", filter_label.as_str());
    let v = usize_to_decimal(errors.len());
    push_line(&mut out, "错误数量：", v.as_str());
    out.append("\n");
    let ghost head = out@;
    assert(head == text_error_head(*meta, errors@.len()));
    for i in 0..errors.len()
        invariant
            head == text_error_head(*meta, errors@.len()),
            out@ == head + error_entries(errors@.take(i as int)),
    {
        let e = &errors[i];
        let ghost before = out@;
        push_line(&mut out, "路径：", e.path.as_str());
        push_line(&mut out, "专辑：", e.album.as_str());
        push_line(&mut out, "错误：", e.message.as_str());
        out.append("\n");
        assert(errors@.take(i + 1).drop_last() =~= errors@.take(i as int));
        assert(out@ =~= before + error_entry(errors@[i as int]));
        assert(out@ =~= head + error_entries(errors@.take(i + 1)));
    }
    assert(errors@.take(errors@.len() as int) =~= errors@);
    out
}

/// The bytes of a text file: a UTF-8 byte order mark, then the UTF-8 text.
pub fn with_utf8_bom(text: &str) -> (res: Vec<u8>)
    ensures
        res@ == seq![0xEFu8, 0xBBu8, 0xBFu8] + text.spec_bytes(),
{
    let mut out: Vec<u8> = Vec::new();
    out.push(0xEF);
    out.push(0xBB);
    out.push(0xBF);
    let bytes = text.as_bytes();
    for i in 0..bytes.len()
        invariant
            bytes@ == text.spec_bytes(),
            out@ == seq![0xEFu8, 0xBBu8, 0xBFu8] + bytes@.take(i as int),
    {
        out.push(bytes[i]);
        assert(bytes@.take(i + 1) =~= bytes@.take(i as int).push(bytes@[i as int]));
        assert(out@ =~= seq![0xEFu8, 0xBBu8, 0xBFu8] + bytes@.take(i + 1));
    }
    assert(bytes@.take(bytes@.len() as int) =~= bytes@);
    out
}


// ---------------------------------------------------------------------------
// CSV rendering
// ---------------------------------------------------------------------------

/// The characters of each field of a record.
pub open spec fn fields_view(fields: Seq<String>) -> Seq<Seq<char>> {
    fields.map_values(|f: String| f@)
}

/// The records of a CSV file, each as the characters of its fields.
pub open spec fn records_view(records: Seq<Vec<String>>) -> Seq<Seq<Seq<char>>> {
    records.map_values(|r: Vec<String>| fields_view(r@))
}

/// A character that makes the `csv` crate quote a field with its default
/// settings: the delimiter, the quote, a carriage return or a line feed.
pub open spec fn csv_special(c: char) -> bool {
    c == ',' || c == '"' || c == '\r' || c == '\n'
}

/// The field with every quote doubled.
pub open spec fn double_quotes(f: Seq<char>) -> Seq<char>
    decreases f.len(),
{
    if f.len() == 0 {
        Seq::empty()
    } else if f.last() == '"' {
        double_quotes(f.drop_last()) + seq!['"', '"']
    } else {
        double_quotes(f.drop_last()).push(f.last())
    }
}

/// One field as written: in quotes, with its quotes doubled, when it holds a
/// special character; as it is otherwise.
pub open spec fn csv_field_text(f: Seq<char>) -> Seq<char> {
    if exists|i: int| 0 <= i < f.len() && csv_special(#[trigger] f[i]) {
        seq!['"'] + double_quotes(f) + seq!['"']
    } else {
        f
    }
}

/// The fields, each as written, joined with commas.
pub open spec fn csv_joined(fields: Seq<Seq<char>>) -> Seq<char>
    decreases fields.len(),
{
    if fields.len() == 0 {
        Seq::empty()
    } else if fields.len() == 1 {
        csv_field_text(fields[0])
    } else {
        csv_joined(fields.drop_last()) + seq![','] + csv_field_text(fields.last())
    }
}

/// One record as the `csv` crate writes it with its default settings: the
/// fields joined with commas, then a line feed; a record that would be
/// empty (no field, or one empty field) is written as `""`.
pub open spec fn csv_record_text(fields: Seq<Seq<char>>) -> Seq<char> {
    if csv_joined(fields).len() == 0 {
        seq!['"', '"', '\n']
    } else {
        csv_joined(fields).push('\n')
    }
}

/// The UTF-8 bytes of one record as written.
pub open spec fn csv_record_bytes(fields: Seq<Seq<char>>) -> Seq<u8> {
    encode_utf8(csv_record_text(fields))
}

/// The bytes of several records written one after another.
pub open spec fn csv_bytes(records: Seq<Seq<Seq<char>>>) -> Seq<u8>
    decreases records.len(),
{
    if records.len() == 0 {
        Seq::empty()
    } else {
        csv_bytes(records.drop_last()) + csv_record_bytes(records.last())
    }
}

/// One record written by `csv::Writer::write_record` into memory, then taken
/// back with `Writer::into_inner`, on a writer from `csv::WriterBuilder` with
/// its default settings (comma, double quote, quotes doubled, quoting where
/// needed, line feed) and `flexible(true)`. The contract claims the bytes
/// that the crate's source writes for such a record, and that both calls
/// succeed: the crate fails only when the underlying writer fails, which a
/// `Vec<u8>` never does, or on records of unequal length, which `flexible`
/// allows.
#[verifier::external_body]
fn csv_encode_record(fields: &Vec<String>) -> (res: Option<Vec<u8>>)
    ensures
        res is Some,
        res matches Some(b) ==> b@ == csv_record_bytes(fields_view(fields@)),
{
    let mut writer = csv::WriterBuilder::new().flexible(true).from_writer(Vec::new());
    match writer.write_record(fields) {
        Ok(()) => {},
        Err(_) => return None,
    }
    match writer.into_inner() {
        Ok(bytes) => Some(bytes),
        Err(_) => None,
    }
}

/// The records written one after another as CSV.
pub fn encode_csv(records: &Vec<Vec<String>>) -> (res: Vec<u8>)
    ensures
        res@ == csv_bytes(records_view(records@)),
{
    let ghost rv = records_view(records@);
    let mut out: Vec<u8> = Vec::new();
    for i in 0..records.len()
        invariant
            rv == records_view(records@),
            out@ == csv_bytes(rv.take(i as int)),
    {
        match csv_encode_record(&records[i]) {
            None => {},
            Some(mut bytes) => {
                out.append(&mut bytes);
                assert(rv.take(i + 1).drop_last() =~= rv.take(i as int));
                assert(rv[i as int] == fields_view(records@[i as int]@));
            },
        }
    }
    assert(rv.take(records@.len() as int) =~= rv);
    out
}

fn record3(a: &str, b: &str, c: &str) -> (res: Vec<String>)
    ensures
        fields_view(res@) == seq![a@, b@, c@],
{
    let mut v: Vec<String> = Vec::new();
    v.push(owned(a));
    v.push(owned(b));
    v.push(owned(c));
    assert(fields_view(v@) =~= seq![a@, b@, c@]);
    v
}

fn record5(a: &str, b: &str, c: &str, d: &str, e: &str) -> (res: Vec<String>)
    ensures
        fields_view(res@) == seq![a@, b@, c@, d@, e@],
{
    let mut v: Vec<String> = Vec::new();
    v.push(owned(a));
    v.push(owned(b));
    v.push(owned(c));
    v.push(owned(d));
    v.push(owned(e));
    assert(fields_view(v@) =~= seq![a@, b@, c@, d@, e@]);
    v
}

/// A record of the summary section of the CSV report.
pub open spec fn summary_record(field: Seq<char>, value: Seq<char>) -> Seq<Seq<char>> {
    seq!["摘要"@, field, value]
}

/// The record of one album in the CSV report.
pub open spec fn album_record(row: AlbumReportRow) -> Seq<Seq<char>> {
    seq!["缺封面专辑"@, row.artist@, row.album@, row.folder@, yes_no_text(row.external_cover_hint)]
}

/// The records of the CSV report before the album list.
pub open spec fn csv_report_head(meta: ReportMeta, summary: SummarySnapshot) -> Seq<Seq<Seq<char>>> {
    seq![
        seq!["分区"@, "字段"@, "值"@],
        summary_record("生成时间"@, meta.generated_at@),
        summary_record("扫描目录"@, meta.scan_root@),
        summary_record("输出格式"@, output_format_label(meta.output_format@)),
        summary_record("修改时间过滤"@, modified_filter_label(meta.modified_filter@)),
        summary_record("已处理音频"@, decimal(summary.processed_audio as nat)),
        summary_record("已扫描支持格式"@, decimal(summary.supported_files_scanned as nat)),
        summary_record("支持格式分布"@, counts_text(summary.supported_format_counts.entries_view())),
        summary_record("缺少嵌入式封面的歌曲"@, decimal(summary.missing_front_cover_songs as nat)),
        summary_record("涉及专辑数"@, decimal(summary.missing_front_cover_albums as nat)),
        summary_record("错误数"@, decimal(summary.errors as nat)),
        summary_record("跳过的未支持音频"@, decimal(summary.unsupported_audio_skipped as nat)),
        summary_record("未支持格式分布"@, counts_text(summary.unsupported_format_counts.entries_view())),
        summary_record("说明"@, "下方列表按专辑去重显示"@),
        seq!["缺封面专辑"@, "艺术家"@, "专辑"@, "文件夹"@, "检测到外部封面文件"@],
    ]
}

/// All records of the CSV report.
pub open spec fn csv_report_records(meta: ReportMeta, summary: SummarySnapshot, rows: Seq<AlbumReportRow>) -> Seq<Seq<Seq<char>>> {
    csv_report_head(meta, summary) + rows.map_values(|r: AlbumReportRow| album_record(r))
}

/// The records of the main report in CSV.
pub fn csv_report_rows(meta: &ReportMeta, summary: &SummarySnapshot, missing_albums: &Vec<AlbumReportRow>) -> (res: Vec<Vec<String>>)
    ensures
        records_view(res@) == csv_report_records(*meta, *summary, missing_albums@),
{
    let mut out: Vec<Vec<String>> = Vec::new();
    out.push(record3("分区", "字段", "值"));
    out.push(record3("摘要", "生成时间", meta.generated_at.as_str()));
    out.push(record3("摘要", "扫描目录", meta.scan_root.as_str()));
    let v = format_output_format_label(meta.output_format.as_str());
    out.push(record3("摘要", "输出格式", v.as_str()));
    let v = format_modified_filter_label(meta.modified_filter.as_str());
    out.push(record3("摘要", "修改时间过滤", v.as_str()));
    let v = usize_to_decimal(summary.processed_audio);
    out.push(record3("摘要", "已处理音频", v.as_str()));
    let v = usize_to_decimal(summary.supported_files_scanned);
    out.push(record3("摘要", "已扫描支持格式", v.as_str()));
    let v = format_extension_counts(&summary.supported_format_counts);
    out.push(record3("摘要", "支持格式分布", v.as_str()));
    let v = usize_to_decimal(summary.missing_front_cover_songs);
    out.push(record3("摘要", "缺少嵌入式封面的歌曲", v.as_str()));
    let v = usize_to_decimal(summary.missing_front_cover_albums);
    out.push(record3("摘要", "涉及专辑数", v.as_str()));
    let v = usize_to_decimal(summary.errors);
    out.push(record3("摘要", "错误数", v.as_str()));
    let v = usize_to_decimal(summary.unsupported_audio_skipped);
    out.push(record3("摘要", "跳过的未支持音频", v.as_str()));
    let v = format_extension_counts(&summary.unsupported_format_counts);
    out.push(record3("摘要", "未支持格式分布", v.as_str()));
    out.push(record3("摘要", "说明", "下方列表按专辑去重显示"));
    out.push(record5("缺封面专辑", "艺术家", "专辑", "文件夹", "检测到外部封面文件"));
    let ghost head = csv_report_head(*meta, *summary);
    assert(records_view(out@) =~= head);
    let ghost rows = missing_albums@.map_values(|r: AlbumReportRow| album_record(r));
    for i in 0..missing_albums.len()
        invariant
            head == csv_report_head(*meta, *summary),
            rows == missing_albums@.map_values(|r: AlbumReportRow| album_record(r)),
            records_view(out@) == head + rows.take(i as int),
    {
        let row = &missing_albums[i];
        let ghost before = out@;
        out.push(
            record5(
                "缺封面专辑",
                row.artist.as_str(),
                row.album.as_str(),
                row.folder.as_str(),
                yes_no_cn(row.external_cover_hint),
            ),
        );
        assert(records_view(out@) =~= records_view(before).push(album_record(missing_albums@[i as int])));
        assert(records_view(out@) =~= head + rows.take(i + 1));
    }
    assert(rows.take(missing_albums@.len() as int) =~= rows);
    out
}

/// The main report in CSV.
pub fn csv_report(meta: &ReportMeta, summary: &SummarySnapshot, missing_albums: &Vec<AlbumReportRow>) -> (res: Vec<u8>)
    ensures
        res@ == csv_bytes(csv_report_records(*meta, *summary, missing_albums@)),
{
    let records = csv_report_rows(meta, summary, missing_albums);
    encode_csv(&records)
}

/// The records of the error log in CSV: the Chinese heading, then, if there
/// are errors, a second heading of field names ("path", "album", "error") and
/// one record per error.
pub open spec fn csv_error_records(errors: Seq<ErrorRecord>) -> Seq<Seq<Seq<char>>> {
    if errors.len() == 0 {
        seq![seq!["路径"@, "专辑"@, "错误"@]]
    } else {
        seq![seq!["路径"@, "专辑"@, "错误"@], seq!["path"@, "album"@, "error"@]]
            + errors.map_values(|e: ErrorRecord| seq![e.path@, e.album@, e.message@])
    }
}

/// The records of the error log in CSV.
pub fn csv_error_rows(errors: &Vec<ErrorRecord>) -> (res: Vec<Vec<String>>)
    ensures
        records_view(res@) == csv_error_records(errors@),
{
    let mut out: Vec<Vec<String>> = Vec::new();
    out.push(record3("路径", "专辑", "错误"));
    if errors.len() == 0 {
        assert(records_view(out@) =~= csv_error_records(errors@));
        return out;
    }
    out.push(record3("path", "album", "error"));
    let ghost head = records_view(out@);
    let ghost rows = errors@.map_values(|e: ErrorRecord| seq![e.path@, e.album@, e.message@]);
    for i in 0..errors.len()
        invariant
            head == seq![seq!["路径"@, "专辑"@, "错误"@], seq!["path"@, "album"@, "error"@]],
            rows == errors@.map_values(|e: ErrorRecord| seq![e.path@, e.album@, e.message@]),
            records_view(out@) == head + rows.take(i as int),
    {
        let e = &errors[i];
        let ghost before = out@;
        out.push(record3(e.path.as_str(), e.album.as_str(), e.message.as_str()));
        assert(records_view(out@) =~= records_view(before).push(rows[i as int]));
        assert(records_view(out@) =~= head + rows.take(i + 1));
    }
    assert(rows.take(errors@.len() as int) =~= rows);
    out
}

/// The error log in CSV.
pub fn csv_errors(errors: &Vec<ErrorRecord>) -> (res: Vec<u8>)
    ensures
        res@ == csv_bytes(csv_error_records(errors@)),
{
    let records = csv_error_rows(errors);
    encode_csv(&records)
}

// ---------------------------------------------------------------------------
// The files of a report
// ---------------------------------------------------------------------------

/// What is written for a report: the bytes of the main report and of the
/// error log, or, for JSON, the report's data to be serialised as it is.
pub enum ReportFiles {
    Bytes { main: Vec<u8>, errors: Vec<u8> },
    Json,
}

/// The UTF-8 byte order mark that begins a text file.
pub open spec fn utf8_bom() -> Seq<u8> {
    seq![0xEFu8, 0xBBu8, 0xBFu8]
}

/// The files of a report in the chosen format: text files behind a UTF-8
/// byte order mark, CSV as the `csv` crate writes it, and JSON left to the
/// caller's serialiser.
pub fn render_reports(output_format: OutputFormat, report: &ReportData) -> (res: ReportFiles)
    ensures
        match output_format {
            OutputFormat::Text => res matches ReportFiles::Bytes { main, errors } && main@ == utf8_bom()
                + encode_utf8(text_report_text(report.meta, report.summary, report.missing_albums@))
                && errors@ == utf8_bom() + encode_utf8(
                text_error_head(report.meta, report.errors@.len()) + error_entries(report.errors@),
            ),
            OutputFormat::Csv => res matches ReportFiles::Bytes { main, errors } && main@ == csv_bytes(
                csv_report_records(report.meta, report.summary, report.missing_albums@),
            ) && errors@ == csv_bytes(csv_error_records(report.errors@)),
            OutputFormat::Json => res is Json,
        },
{
    match output_format {
        OutputFormat::Text => {
            let text = text_report(&report.meta, &report.summary, &report.missing_albums);
            let log = text_error_log(&report.meta, &report.errors);
            ReportFiles::Bytes { main: with_utf8_bom(text.as_str()), errors: with_utf8_bom(log.as_str()) }
        },
        OutputFormat::Csv => ReportFiles::Bytes {
            main: csv_report(&report.meta, &report.summary, &report.missing_albums),
            errors: csv_errors(&report.errors),
        },
        OutputFormat::Json => ReportFiles::Json,
    }
}

} // verus!
