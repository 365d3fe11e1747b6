//! Properties of the library as a whole, stated over the contracts of its
//! functions.
use vstd::prelude::*;

use crate::audio::{
    extension_kind, format_of, has_front, song_record_matches, ExtensionKind, PictureKind, TagInfo,
    UNKNOWN_ALBUM, UNKNOWN_ARTIST,
};
use crate::config::{either, first_present};
use crate::counts::CountView;
use crate::model::{ReportMeta, SummarySnapshot};
use crate::paths::{path_components, path_prefix, ComponentKind};
use crate::report::{counts_text, csv_report_records, line, text_report_head};
use crate::scanner::{entry_plan, EntryPlan};
use crate::text::is_blank;
use crate::grouping::{first_of_each_sorted, is_first_of_key, key_order, lemma_key_order_strict_total};
use crate::model::{AlbumReportRow, SongRecord};
use crate::paths::folder_key;
use crate::report::{modified_filter_label, modified_filter_text, album_rows, missing_only, row_of_song, rows_picked, song_key, song_keys};
use crate::audio::junk_name;
use crate::paths::path_file_name;
use crate::scanner::{
    add_effect, count_key, count_missing, entry_effect, read_effect, totals_of, EntryEffect, ScanTotals,
};
use crate::text::{decimal, replace_all};
use crate::ui::{logged, MAX_LOG_LINES};

verus! {

/// A file is checked exactly when a tag reader exists for its format.
pub proof fn lemma_checked_iff_readable(path: Seq<char>)
    ensures
        (extension_kind(path) == ExtensionKind::SupportedAudio) == (format_of(path) is Some),
{
}

/// The number of songs that the report counts as missing a front cover is the
/// number the scan counted.
pub proof fn lemma_missing_count_agrees(files: Seq<SongRecord>)
    ensures
        missing_only(files).len() == count_missing(files),
    decreases files.len(),
{
    if files.len() > 0 {
        lemma_missing_count_agrees(files.drop_last());
    }
}

/// Where a song kept as missing a cover stands among all songs.
pub proof fn lemma_missing_source(songs: Seq<SongRecord>, j: int) -> (k: int)
    requires
        0 <= j < missing_only(songs).len(),
    ensures
        0 <= k < songs.len(),
        songs[k] == missing_only(songs)[j],
        !songs[k].has_front_cover,
    decreases songs.len(),
{
    let prev = songs.drop_last();
    let pm = missing_only(prev);
    if j < pm.len() {
        let k = lemma_missing_source(prev, j);
        assert(songs[k] == prev[k]);
        k
    } else {
        (songs.len() - 1) as int
    }
}

/// Where a song without a front cover stands among the songs kept as missing one.
pub proof fn lemma_missing_position(songs: Seq<SongRecord>, k: int) -> (j: int)
    requires
        0 <= k < songs.len(),
        !songs[k].has_front_cover,
    ensures
        0 <= j < missing_only(songs).len(),
        missing_only(songs)[j] == songs[k],
    decreases songs.len(),
{
    let prev = songs.drop_last();
    if k < prev.len() {
        assert(prev[k] == songs[k]);
        lemma_missing_position(prev, k)
    } else {
        missing_only(prev).len() as int
    }
}

proof fn lemma_rows_come_from_missing(rows: Seq<AlbumReportRow>, songs: Seq<SongRecord>, idx: Seq<usize>)
    requires
        rows_picked(rows, missing_only(songs), idx),
    ensures
        forall|i: int|
            0 <= i < rows.len() ==> exists|k: int|
                0 <= k < songs.len() && !songs[k].has_front_cover && row_of_song(#[trigger] rows[i], songs[k]),
{
    let m = missing_only(songs);
    assert forall|i: int| 0 <= i < rows.len() implies exists|k: int|
        0 <= k < songs.len() && !songs[k].has_front_cover && row_of_song(#[trigger] rows[i], songs[k]) by {
        let j = idx[i] as int;
        assert(row_of_song(rows[i], m[j]));
        let k = lemma_missing_source(songs, j);
    }
}

proof fn lemma_missing_have_rows(rows: Seq<AlbumReportRow>, songs: Seq<SongRecord>, idx: Seq<usize>)
    requires
        rows_picked(rows, missing_only(songs), idx),
    ensures
        forall|k: int|
            0 <= k < songs.len() && !songs[k].has_front_cover ==> exists|i: int|
                0 <= i < rows.len() && folder_key((#[trigger] rows[i]).folder@) == folder_key(
                    songs[k].parent_directory@,
                ) && rows[i].album@ == songs[k].album@,
{
    let m = missing_only(songs);
    let ks = song_keys(m);
    assert forall|k: int| 0 <= k < songs.len() && !songs[k].has_front_cover implies exists|i: int|
        0 <= i < rows.len() && folder_key((#[trigger] rows[i]).folder@) == folder_key(
            songs[k].parent_directory@,
        ) && rows[i].album@ == songs[k].album@ by {
        let j = lemma_missing_position(songs, k);
        assert(ks[j] == song_key(m[j]));
        let i = choose|i: int| 0 <= i < idx.len() && #[trigger] ks[idx[i] as int] == ks[j];
        assert(row_of_song(rows[i], m[idx[i] as int]));
        assert(ks[idx[i] as int] == song_key(m[idx[i] as int]));
    }
}

proof fn lemma_rows_distinct(rows: Seq<AlbumReportRow>, songs: Seq<SongRecord>, idx: Seq<usize>)
    requires
        rows_picked(rows, missing_only(songs), idx),
    ensures
        forall|i: int, j: int|
            0 <= i < j < rows.len() ==> (folder_key((#[trigger] rows[i]).folder@), rows[i].album@) != (
                folder_key((#[trigger] rows[j]).folder@),
                rows[j].album@,
            ),
{
    let m = missing_only(songs);
    let ks = song_keys(m);
    lemma_key_order_strict_total();
    assert forall|i: int, j: int| 0 <= i < j < rows.len() implies (folder_key((#[trigger] rows[i]).folder@), rows[i].album@)
        != (folder_key((#[trigger] rows[j]).folder@), rows[j].album@) by {
        let a = idx[i] as int;
        let b = idx[j] as int;
        assert((key_order())(ks[a], ks[b]));
        assert(row_of_song(rows[i], m[a]));
        assert(row_of_song(rows[j], m[b]));
        assert(ks[a] == (folder_key(rows[i].folder@), rows[i].album@));
        assert(ks[b] == (folder_key(rows[j].folder@), rows[j].album@));
    }
}

/// The album list of the report names exactly the albums (by folder and album)
/// that have a song without an embedded front cover: every row comes from such
/// a song, every such song's album has a row, and no album has two rows.
pub proof fn lemma_report_lists_missing_albums(rows: Seq<AlbumReportRow>, songs: Seq<SongRecord>)
    requires
        album_rows(rows, missing_only(songs)),
    ensures
        forall|i: int|
            0 <= i < rows.len() ==> exists|k: int|
                0 <= k < songs.len() && !songs[k].has_front_cover && row_of_song(#[trigger] rows[i], songs[k]),
        forall|k: int|
            0 <= k < songs.len() && !songs[k].has_front_cover ==> exists|i: int|
                0 <= i < rows.len() && folder_key((#[trigger] rows[i]).folder@) == folder_key(
                    songs[k].parent_directory@,
                ) && rows[i].album@ == songs[k].album@,
        forall|i: int, j: int|
            0 <= i < j < rows.len() ==> (folder_key((#[trigger] rows[i]).folder@), rows[i].album@) != (
                folder_key((#[trigger] rows[j]).folder@),
                rows[j].album@,
            ),
{
    let m = missing_only(songs);
    let idx = choose|idx: Seq<usize>| rows_picked(rows, m, idx);
    lemma_rows_come_from_missing(rows, songs, idx);
    lemma_missing_have_rows(rows, songs, idx);
    lemma_rows_distinct(rows, songs, idx);
}

/// A front cover is taken only from the pictures embedded in the tags: the
/// record's cover flag is the same whatever image files lie beside the song.
pub proof fn lemma_external_image_is_not_a_cover(r1: SongRecord, r2: SongRecord, path: Seq<char>, tags: TagInfo)
    requires
        song_record_matches(r1, path, tags, true),
        song_record_matches(r2, path, tags, false),
    ensures
        r1.has_front_cover == r2.has_front_cover,
{
}

/// The activity log never grows beyond its limit, and its last line is the
/// one added last.
pub proof fn lemma_log_bounded(logs: Seq<Seq<char>>, line: Seq<char>)
    requires
        logs.len() <= MAX_LOG_LINES,
    ensures
        logged(logs, line).len() <= MAX_LOG_LINES,
        logged(logs, line).last() == line,
{
}


/// Every character of a decimal representation is a digit.
pub proof fn lemma_decimal_digits(n: nat)
    ensures
        decimal(n).len() >= 1,
        forall|i: int| 0 <= i < decimal(n).len() ==> '0' <= #[trigger] decimal(n)[i] <= '9',
    decreases n,
{
    if n >= 10 {
        lemma_decimal_digits(n / 10);
        let d = decimal(n / 10);
        assert forall|i: int| 0 <= i < decimal(n).len() implies '0' <= #[trigger] decimal(n)[i] <= '9' by {
            if i < d.len() {
                assert(decimal(n)[i] == d[i]);
            }
        }
    }
}

/// Replacing in `a + b`, where no character of `a` can start the pattern,
/// leaves `a` as it is.
proof fn lemma_replace_prefix_free(a: Seq<char>, b: Seq<char>, pat: Seq<char>, to: Seq<char>)
    requires
        pat.len() > 0,
        forall|i: int| 0 <= i < a.len() ==> a[i] != pat[0],
    ensures
        replace_all(a + b, pat, to) == a + replace_all(b, pat, to),
    decreases a.len(),
{
    if a.len() > 0 {
        let s = a + b;
        if s.len() >= pat.len() {
            assert(s.subrange(0, pat.len() as int)[0] == a[0]);
        }
        assert(s.skip(1) =~= a.skip(1) + b);
        lemma_replace_prefix_free(a.skip(1), b, pat, to);
        assert(s[0] == a[0]);
        assert(seq![a[0]] + (a.skip(1) + replace_all(b, pat, to)) =~= a + replace_all(b, pat, to));
    } else {
        assert(a + b =~= b);
    }
}

/// Replacing in `pat + b` replaces the leading pattern.
proof fn lemma_replace_leading(b: Seq<char>, pat: Seq<char>, to: Seq<char>)
    requires
        pat.len() > 0,
    ensures
        replace_all(pat + b, pat, to) == to + replace_all(b, pat, to),
{
    let s = pat + b;
    assert(s.subrange(0, pat.len() as int) =~= pat);
    assert(s.skip(pat.len() as int) =~= b);
}

/// The report's Chinese label of a modified-time filter says the same as the
/// filter: "最近 N 天" for the last N days, "无" for none.
pub proof fn lemma_filter_label(days: Option<u64>)
    ensures
        modified_filter_label(modified_filter_text(days)) == match days {
            Some(d) => "最近 "@ + decimal(d as nat) + " 天"@,
            None => "无"@,
        },
{
    reveal_strlit("last ");
    reveal_strlit(" days");
    reveal_strlit("最近 ");
    reveal_strlit(" 天");
    reveal_strlit("none");
    match days {
        None => {},
        Some(d) => {
            let digits = decimal(d as nat);
            lemma_decimal_digits(d as nat);
            let text = "last "@ + digits + " days"@;
            assert(text != "none"@) by {
                assert(text[0] == 'l');
            }
            // first replacement
            let tail = digits + " days"@;
            assert(text =~= "last "@ + tail);
            lemma_replace_leading(tail, "last "@, "最近 "@);
            lemma_replace_prefix_free(digits, " days"@, "last "@, "最近 "@);
            lemma_replace_prefix_free(" days"@, Seq::empty(), "last "@, "最近 "@);
            assert(" days"@ + Seq::<char>::empty() =~= " days"@);
            assert(replace_all(Seq::<char>::empty(), "last "@, "最近 "@) =~= Seq::<char>::empty());
            let once = "最近 "@ + digits + " days"@;
            assert(replace_all(text, "last "@, "最近 "@) =~= once);
            // second replacement
            let rest = digits + " days"@;
            assert(once =~= seq!['最', '近'] + (seq![' '] + rest));
            lemma_replace_prefix_free(seq!['最', '近'], seq![' '] + rest, " days"@, " 天"@);
            let s2 = seq![' '] + rest;
            assert(s2.len() >= 5);
            assert(s2.subrange(0, 5)[1] == digits[0]);
            assert(s2.subrange(0, 5) != " days"@) by {
                assert(" days"@[1] == 'd');
            }
            assert(s2.skip(1) =~= rest);
            lemma_replace_prefix_free(digits, " days"@, " days"@, " 天"@);
            lemma_replace_leading(Seq::empty(), " days"@, " 天"@);
            assert(" days"@ + Seq::<char>::empty() =~= " days"@);
            assert(replace_all(Seq::<char>::empty(), " days"@, " 天"@) =~= Seq::<char>::empty());
            assert(replace_all(rest, " days"@, " 天"@) =~= digits + " 天"@);
            assert(replace_all(s2, " days"@, " 天"@) =~= seq![' '] + digits + " 天"@);
            assert(replace_all(once, " days"@, " 天"@) =~= "最近 "@ + digits + " 天"@);
        },
    }
}

/// Met one after the other, two entries add the same whichever comes first.
proof fn lemma_effects_commute(t: ScanTotals, a: EntryEffect, b: EntryEffect)
    ensures
        add_effect(add_effect(t, a), b) == add_effect(add_effect(t, b), a),
{
    broadcast use vstd::multiset::group_multiset_axioms;

    assert(add_effect(add_effect(t, a), b).1 =~= add_effect(add_effect(t, b), a).1);
    assert(add_effect(add_effect(t, a), b).2 =~= add_effect(add_effect(t, b), a).2);
    assert(add_effect(add_effect(t, a), b).3 =~= add_effect(add_effect(t, b), a).3);
    assert(add_effect(add_effect(t, a), b).4 =~= add_effect(add_effect(t, b), a).4);
}

/// The totals of a scan do not depend on the order of the walk: an entry met
/// at any point of the walk adds to the totals what it adds when met last.
pub proof fn lemma_walk_order_does_not_matter(effects: Seq<EntryEffect>, k: int, e: EntryEffect)
    requires
        0 <= k <= effects.len(),
    ensures
        totals_of(effects.insert(k, e)) == add_effect(totals_of(effects), e),
    decreases effects.len(),
{
    if k == effects.len() {
        assert(effects.insert(k, e).drop_last() =~= effects);
    } else {
        let init = effects.drop_last();
        let last = effects.last();
        lemma_walk_order_does_not_matter(init, k, e);
        assert(effects.insert(k, e).drop_last() =~= init.insert(k, e));
        assert(effects.insert(k, e).last() == last);
        lemma_effects_commute(totals_of(init), e, last);
    }
}

/// What one more file adds to a scan, wherever the walk meets it: a junk file
/// ("._*", ".DS_Store", "desktop.ini", "Thumbs.db") adds nothing; an audio
/// file of a format that is not checked, within the time window, adds one
/// processed file and one count of its extension, and no song and no error;
/// a checked audio file within the window adds what reading its tags gave.
pub proof fn lemma_what_one_file_adds(
    effects: Seq<EntryEffect>,
    k: int,
    path: Seq<char>,
    modified_since: Option<i128>,
    modified: Option<i128>,
    tags: Result<TagInfo, String>,
    hint: bool,
)
    requires
        0 <= k <= effects.len(),
    ensures
        ({
            let e = entry_effect(path, false, false, true, modified_since, modified, tags, hint);
            let before = totals_of(effects);
            let after = totals_of(effects.insert(k, e));
            &&& (path_file_name(path) matches Some(name) && junk_name(name)) ==> after == before
            &&& (!(path_file_name(path) matches Some(name) && junk_name(name))
                && !(modified_since matches Some(since) && (modified matches Some(m) && m < since))) ==> {
                &&& extension_kind(path) == ExtensionKind::UnsupportedAudio ==> after == (
                    before.0 + 1,
                    before.1,
                    before.2,
                    before.3,
                    before.4.insert(count_key(path)),
                )
                &&& extension_kind(path) == ExtensionKind::SupportedAudio ==> after == add_effect(
                    before,
                    read_effect(path, tags, hint),
                )
            }
        }),
{
    let e = entry_effect(path, false, false, true, modified_since, modified, tags, hint);
    lemma_walk_order_does_not_matter(effects, k, e);
}

// ---------------------------------------------------------------------------
// Covers, folders, report fields, the time window, settings
// ---------------------------------------------------------------------------

/// A song has an embedded front cover exactly when some picture of its tags,
/// at any position, is a front cover (or the artwork of an MP4 tag): a front
/// cover is not lost behind later pictures, and other pictures never make one.
pub proof fn lemma_front_cover_anywhere(r: SongRecord, path: Seq<char>, tags: TagInfo, hint: bool, i: int)
    requires
        song_record_matches(r, path, tags, hint),
    ensures
        0 <= i < tags.pictures@.len() && (tags.pictures@[i] == PictureKind::FrontCover
            || tags.pictures@[i] == PictureKind::Mp4Artwork) ==> r.has_front_cover,
        (forall|j: int| 0 <= j < tags.pictures@.len() ==> #[trigger] tags.pictures@[j] == PictureKind::Other)
            ==> !r.has_front_cover,
{
    if 0 <= i < tags.pictures@.len() && (tags.pictures@[i] == PictureKind::FrontCover
        || tags.pictures@[i] == PictureKind::Mp4Artwork) {
        assert(crate::audio::is_front(tags.pictures@[i]));
    }
}

/// Adding a picture after a front cover keeps the cover, and adding a front
/// cover to any pictures gives one.
pub proof fn lemma_front_cover_kept(pictures: Seq<PictureKind>, p: PictureKind)
    ensures
        has_front(pictures) ==> has_front(pictures.push(p)),
        has_front(pictures.push(PictureKind::FrontCover)),
        has_front(seq![PictureKind::FrontCover] + pictures),
        !has_front(Seq::<PictureKind>::empty()),
{
    if has_front(pictures) {
        let i = choose|i: int| 0 <= i < pictures.len() && crate::audio::is_front(pictures[i]);
        assert(pictures.push(p)[i] == pictures[i]);
    }
    assert(pictures.push(PictureKind::FrontCover)[pictures.len() as int] == PictureKind::FrontCover);
    assert((seq![PictureKind::FrontCover] + pictures)[0] == PictureKind::FrontCover);
}

/// Album and artist come from the tags unless missing or blank, in which case
/// they are "[Unknown Album]" and "[Unknown Artist]"; the folder is the
/// file's parent.
pub proof fn lemma_record_names(r: SongRecord, path: Seq<char>, tags: TagInfo, hint: bool)
    requires
        song_record_matches(r, path, tags, hint),
    ensures
        match tags.album {
            Some(a) => if is_blank(a@) {
                r.album@ == UNKNOWN_ALBUM@
            } else {
                r.album@ == a@
            },
            None => r.album@ == UNKNOWN_ALBUM@,
        },
        match tags.artist {
            Some(a) => if is_blank(a@) {
                r.artist@ == UNKNOWN_ARTIST@
            } else {
                r.artist@ == a@
            },
            None => r.artist@ == UNKNOWN_ARTIST@,
        },
        crate::paths::path_parent(path) == Some(r.parent_directory@),
        r.has_external_cover_hint == hint,
{
}

/// Folders are told apart by their whole paths: two folders with a different
/// number of components, or with different names at the same position, are
/// different grouping keys, so their albums are listed apart even under the
/// same album name.
pub proof fn lemma_folders_told_apart(p: Seq<char>, q: Seq<char>, i: int)
    ensures
        folder_key(p).len() == path_components(p).len(),
        path_components(p).len() != path_components(q).len() ==> folder_key(p) != folder_key(q),
        (0 <= i < path_components(p).len() && 0 <= i < path_components(q).len()
            && path_components(p)[i].0 == ComponentKind::Normal
            && path_components(q)[i].0 == ComponentKind::Normal
            && path_components(p)[i].1 != path_components(q)[i].1) ==> folder_key(p) != folder_key(q),
        (0 <= i < path_components(p).len() && 0 <= i < path_components(q).len()
            && path_components(p)[i].0 != path_components(q)[i].0
            && path_components(p)[i].0 != ComponentKind::Prefix
            && path_components(q)[i].0 != ComponentKind::Prefix) ==> folder_key(p) != folder_key(q),
{
    if 0 <= i < path_components(p).len() && 0 <= i < path_components(q).len() {
        assert(folder_key(p)[i] == crate::paths::part_key(path_components(p)[i], path_prefix(p)));
        assert(folder_key(q)[i] == crate::paths::part_key(path_components(q)[i], path_prefix(q)));
    }
}

/// Every summary field of the CSV report holds the value the summary gives
/// for it, under its own name, at its own place.
pub proof fn lemma_csv_summary_fields(meta: ReportMeta, summary: SummarySnapshot, rows: Seq<AlbumReportRow>)
    ensures
        ({
            let r = csv_report_records(meta, summary, rows);
            &&& r.len() == 15 + rows.len()
            &&& r[0] == seq!["分区"@, "字段"@, "值"@]
            &&& r[1] == seq!["摘要"@, "生成时间"@, meta.generated_at@]
            &&& r[2] == seq!["摘要"@, "扫描目录"@, meta.scan_root@]
            &&& r[5] == seq!["摘要"@, "已处理音频"@, decimal(summary.processed_audio as nat)]
            &&& r[6] == seq!["摘要"@, "已扫描支持格式"@, decimal(summary.supported_files_scanned as nat)]
            &&& r[7] == seq!["摘要"@, "支持格式分布"@, counts_text(summary.supported_format_counts.entries_view())]
            &&& r[8] == seq!["摘要"@, "缺少嵌入式封面的歌曲"@, decimal(summary.missing_front_cover_songs as nat)]
            &&& r[9] == seq!["摘要"@, "涉及专辑数"@, decimal(summary.missing_front_cover_albums as nat)]
            &&& r[10] == seq!["摘要"@, "错误数"@, decimal(summary.errors as nat)]
            &&& r[11] == seq!["摘要"@, "跳过的未支持音频"@, decimal(summary.unsupported_audio_skipped as nat)]
            &&& r[12] == seq!["摘要"@, "未支持格式分布"@, counts_text(summary.unsupported_format_counts.entries_view())]
        }),
{
}

/// The text report states the totals of the summary, each on its own line
/// under its own label.
pub proof fn lemma_text_summary_lines(meta: ReportMeta, summary: SummarySnapshot)
    ensures
        exists|a: Seq<char>, b: Seq<char>|
            text_report_head(meta, summary) == a + line("已处理音频："@, decimal(summary.processed_audio as nat)) + b,
        exists|a: Seq<char>, b: Seq<char>|
            text_report_head(meta, summary) == a + line("缺少嵌入式封面的歌曲："@, decimal(summary.missing_front_cover_songs as nat)) + b,
        exists|a: Seq<char>, b: Seq<char>|
            text_report_head(meta, summary) == a + line("涉及专辑数："@, decimal(summary.missing_front_cover_albums as nat)) + b,
        exists|a: Seq<char>, b: Seq<char>|
            text_report_head(meta, summary) == a + line("错误数："@, decimal(summary.errors as nat)) + b,
        exists|a: Seq<char>, b: Seq<char>|
            text_report_head(meta, summary) == a + line("跳过的未支持音频："@, decimal(summary.unsupported_audio_skipped as nat)) + b,
{
    let pieces = text_head_pieces(meta, summary);
    lemma_text_head_pieces(meta, summary);
    lemma_concat_split(pieces, 6);
    lemma_concat_split(pieces, 9);
    lemma_concat_split(pieces, 10);
    lemma_concat_split(pieces, 11);
    lemma_concat_split(pieces, 12);
}

/// The pieces of a text, joined in order.
pub open spec fn concat_all(s: Seq<Seq<char>>) -> Seq<char>
    decreases s.len(),
{
    if s.len() == 0 {
        Seq::empty()
    } else {
        concat_all(s.drop_last()) + s.last()
    }
}

proof fn lemma_concat_split(s: Seq<Seq<char>>, i: int)
    requires
        0 <= i < s.len(),
    ensures
        concat_all(s) == concat_all(s.take(i)) + s[i] + concat_all(s.skip(i + 1)),
    decreases s.len(),
{
    if i == s.len() - 1 {
        assert(s.take(i) =~= s.drop_last());
        assert(s.skip(i + 1) =~= Seq::<Seq<char>>::empty());
        assert(concat_all(s) =~= concat_all(s.take(i)) + s[i] + Seq::empty());
    } else {
        let d = s.drop_last();
        lemma_concat_split(d, i);
        assert(d.take(i) =~= s.take(i));
        assert(s.skip(i + 1).drop_last() =~= d.skip(i + 1));
        assert(s.skip(i + 1).last() == s.last());
        assert(concat_all(s) =~= concat_all(s.take(i)) + s[i] + concat_all(s.skip(i + 1)));
    }
}

/// The text report's head, piece by piece.
spec fn text_head_pieces(meta: ReportMeta, summary: SummarySnapshot) -> Seq<Seq<char>> {
    seq![
        "Album Cover Check 扫描报告\n"@,
        line("生成时间："@, meta.generated_at@),
        line("扫描目录："@, meta.scan_root@),
        line("输出格式："@, crate::report::output_format_label(meta.output_format@)),
        line("修改时间过滤："@, modified_filter_label(meta.modified_filter@)),
        "\n"@ + "=== 摘要 ===\n"@,
        line("已处理音频："@, decimal(summary.processed_audio as nat)),
        line("已扫描支持格式："@, decimal(summary.supported_files_scanned as nat)),
        line("支持格式分布："@, counts_text(summary.supported_format_counts.entries_view())),
        line("缺少嵌入式封面的歌曲："@, decimal(summary.missing_front_cover_songs as nat)),
        line("涉及专辑数："@, decimal(summary.missing_front_cover_albums as nat)),
        line("错误数："@, decimal(summary.errors as nat)),
        line("跳过的未支持音频："@, decimal(summary.unsupported_audio_skipped as nat)),
        line("未支持格式分布："@, counts_text(summary.unsupported_format_counts.entries_view())),
        "\n"@ + "=== 缺少嵌入式封面的专辑 ===\n"@ + "说明：下方列表按专辑去重显示，不按歌曲逐条展开。\n"@ + "\n"@,
    ]
}

#[verifier::rlimit(60)]
proof fn lemma_text_head_pieces(meta: ReportMeta, summary: SummarySnapshot)
    ensures
        text_report_head(meta, summary) == concat_all(text_head_pieces(meta, summary)),
{
    let p = text_head_pieces(meta, summary);
    reveal_with_fuel(concat_all, 16);
    assert(p.len() == 15);
    assert(text_report_head(meta, summary) =~= concat_all(p));
}

/// The time window comes before everything else: a file last modified before
/// the window is passed over whatever its extension, a file with no known
/// time is not held back by the window, and without a window the extension
/// alone decides for a regular file that is not junk.
pub proof fn lemma_time_window_first(
    path: Seq<char>,
    is_symlink: bool,
    is_dir: bool,
    is_file: bool,
    modified_since: Option<i128>,
    modified: Option<i128>,
)
    ensures
        (modified_since matches Some(s) && (modified matches Some(m) && m < s))
            ==> entry_plan(path, is_symlink, is_dir, is_file, modified_since, modified) == EntryPlan::Skip,
        (is_symlink || is_dir || !is_file) ==> entry_plan(path, is_symlink, is_dir, is_file, modified_since, modified)
            == EntryPlan::Skip,
        (path_file_name(path) matches Some(name) && junk_name(name)) ==> entry_plan(
            path,
            is_symlink,
            is_dir,
            is_file,
            modified_since,
            modified,
        ) == EntryPlan::Skip,
        (!is_symlink && !is_dir && is_file && !(path_file_name(path) matches Some(name) && junk_name(name))
            && !(modified_since matches Some(s) && (modified matches Some(m) && m < s))) ==> {
            &&& (extension_kind(path) == ExtensionKind::SupportedAudio) == (entry_plan(
                path,
                is_symlink,
                is_dir,
                is_file,
                modified_since,
                modified,
            ) == EntryPlan::ReadTags)
            &&& (extension_kind(path) == ExtensionKind::UnsupportedAudio) == (entry_plan(
                path,
                is_symlink,
                is_dir,
                is_file,
                modified_since,
                modified,
            ) == EntryPlan::CountUnsupported)
        },
{
}

/// A file last modified before the time window adds nothing to a scan,
/// wherever the walk meets it.
pub proof fn lemma_old_file_adds_nothing(
    effects: Seq<EntryEffect>,
    k: int,
    path: Seq<char>,
    since: i128,
    m: i128,
    tags: Result<TagInfo, String>,
    hint: bool,
)
    requires
        0 <= k <= effects.len(),
        m < since,
    ensures
        totals_of(effects.insert(k, entry_effect(path, false, false, true, Some(since), Some(m), tags, hint)))
            == totals_of(effects),
{
    lemma_walk_order_does_not_matter(effects, k, entry_effect(path, false, false, true, Some(since), Some(m), tags, hint));
}

/// The command line wins over the config file, which wins over the default:
/// a value given on the command line is the one used, and the config file's
/// value is used only when the command line gives none.
pub proof fn lemma_command_line_wins<T>(cli: Option<T>, file: Option<T>, default: T)
    ensures
        cli matches Some(c) ==> either(cli, file) == Some(c) && first_present(cli, file, default) == c,
        cli is None ==> either(cli, file) == file,
        cli is None ==> match file {
            Some(f) => first_present(cli, file, default) == f,
            None => first_present(cli, file, default) == default,
        },
{
}

} // verus!
