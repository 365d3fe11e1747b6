//! Audio files: which are junk, which formats are checked, and what record a
//! file's tags give.
use vstd::prelude::*;

use crate::model::SongRecord;
use crate::paths::{
    extension, file_name, join, opt_chars, parent, path_extension, path_file_name, path_join,
    path_parent,
};
use crate::text::{
    ascii_lower, concat2, has_prefix, is_blank, is_blank_str, owned, starts_with, str_equal,
    to_ascii_lowercase,
};

verus! {

/// The album name used when the tags name none.
pub const UNKNOWN_ALBUM: &'static str = "[Unknown Album]";

/// The artist name used when the tags name none.
pub const UNKNOWN_ARTIST: &'static str = "[Unknown Artist]";

/// How a file is handled, by its extension.
#[derive(Debug, Clone, Copy, PartialEq, Eq, Structural)]
pub enum ExtensionKind {
    SupportedAudio,
    UnsupportedAudio,
    Ignored,
}

/// How the tags of a supported file are read.
#[derive(Debug, Clone, Copy, PartialEq, Eq, Structural)]
pub enum SupportedFormat {
    /// mp3 and flac: tags that carry typed pictures.
    FrontCoverTagged,
    /// m4a and mp4: an MP4 tag and its artwork.
    Mp4Like,
}

/// A picture embedded in a tag, as far as the check cares.
#[derive(Debug, Clone, Copy, PartialEq, Eq, Structural)]
pub enum PictureKind {
    /// A picture whose type is "front cover".
    FrontCover,
    /// A picture of any other type.
    Other,
    /// The artwork of an MP4 tag, which records no picture type.
    Mp4Artwork,
}

/// What was read from the tags of a file: album and artist of its best tag
/// (if it has them), and the kind of every picture its tags embed.
pub struct TagInfo {
    pub album: Option<String>,
    pub artist: Option<String>,
    pub pictures: Vec<PictureKind>,
}

/// One tag of a file, as far as the check reads it: whether it is of the
/// file's primary tag type, and its album and artist, if it names them.
pub struct TagFields {
    pub is_primary: bool,
    pub album: Option<String>,
    pub artist: Option<String>,
}

/// The position of the first tag of the primary type, if there is one.
pub open spec fn first_primary(tags: Seq<TagFields>) -> Option<int>
    decreases tags.len(),
{
    if tags.len() == 0 {
        None
    } else {
        match first_primary(tags.drop_last()) {
            Some(i) => Some(i),
            None => if tags.last().is_primary {
                Some(tags.len() - 1)
            } else {
                None
            },
        }
    }
}

/// The tag that album and artist come from: the first tag of the primary
/// type, or else the first tag, if there is any.
pub open spec fn best_tag(tags: Seq<TagFields>) -> Option<int> {
    match first_primary(tags) {
        Some(i) => Some(i),
        None => if tags.len() > 0 {
            Some(0)
        } else {
            None
        },
    }
}

fn copy_opt(o: &Option<String>) -> (res: Option<String>)
    ensures
        opt_chars(res) == opt_chars(*o),
{
    match o {
        Some(s) => Some(s.clone()),
        None => None,
    }
}

/// What the tags of a file give: album and artist of the best tag (none when
/// the file has no tag), and the pictures of all tags.
pub fn tag_info(tags: &Vec<TagFields>, pictures: Vec<PictureKind>) -> (res: TagInfo)
    ensures
        opt_chars(res.album) == (match best_tag(tags@) {
            Some(i) => opt_chars(tags@[i].album),
            None => None,
        }),
        opt_chars(res.artist) == (match best_tag(tags@) {
            Some(i) => opt_chars(tags@[i].artist),
            None => None,
        }),
        res.pictures@ == pictures@,
{
    let mut found: Option<usize> = None;
    let mut i: usize = 0;
    while i < tags.len() && found.is_none()
        invariant
            i <= tags@.len(),
            found is None ==> first_primary(tags@.take(i as int)) is None,
            found matches Some(j) ==> j < tags@.len() && first_primary(tags@) == Some(j as int),
        decreases tags@.len() - i,
    {
        assert(tags@.take(i + 1).drop_last() =~= tags@.take(i as int));
        if tags[i].is_primary {
            proof {
                assert(first_primary(tags@.take(i + 1)) == Some(i as int));
                lemma_first_primary_prefix(tags@, i as int + 1);
            }
            found = Some(i);
        }
        i = i + 1;
    }
    proof {
        if found is None {
            assert(tags@.take(tags@.len() as int) =~= tags@);
        }
    }
    let best = match found {
        Some(j) => Some(j),
        None => if tags.len() > 0 {
            Some(0)
        } else {
            None
        },
    };
    match best {
        Some(j) => TagInfo { album: copy_opt(&tags[j].album), artist: copy_opt(&tags[j].artist), pictures },
        None => TagInfo { album: None, artist: None, pictures },
    }
}

/// A primary tag found among the first `n` tags is the first one of all.
proof fn lemma_first_primary_prefix(tags: Seq<TagFields>, n: int)
    requires
        0 <= n <= tags.len(),
        first_primary(tags.take(n)) is Some,
    ensures
        first_primary(tags) == first_primary(tags.take(n)),
    decreases tags.len() - n,
{
    if n < tags.len() {
        assert(tags.take(n + 1).drop_last() =~= tags.take(n));
        lemma_first_primary_prefix(tags, n + 1);
    } else {
        assert(tags.take(n) =~= tags);
    }
}

/// The file is one that the check passes over silently.
pub open spec fn junk_name(name: Seq<char>) -> bool {
    ||| has_prefix(name, "._"@)
    ||| ascii_lower(name) == ".ds_store"@
    ||| ascii_lower(name) == "desktop.ini"@
    ||| ascii_lower(name) == "thumbs.db"@
}

/// Whether `path` names a system file to ignore: AppleDouble files ("._*"),
/// and, in any letter case, ".DS_Store", "desktop.ini" and "Thumbs.db".
pub fn is_silent_junk_file(path: &str) -> (res: bool)
    ensures
        res == match path_file_name(path@) {
            None => false,
            Some(name) => junk_name(name),
        },
{
    let name = match file_name(path) {
        None => {
            return false;
        },
        Some(name) => name,
    };
    if starts_with(name.as_str(), "._") {
        return true;
    }
    let lower = to_ascii_lowercase(name.as_str());
    str_equal(lower.as_str(), ".ds_store") || str_equal(lower.as_str(), "desktop.ini") || str_equal(
        lower.as_str(),
        "thumbs.db",
    )
}

/// The extension of `path` in lower case.
pub open spec fn normalized_ext(path: Seq<char>) -> Option<Seq<char>> {
    match path_extension(path) {
        None => None,
        Some(e) => Some(ascii_lower(e)),
    }
}

/// The extension of `path`, lower-cased (ASCII letters only).
pub fn normalized_extension(path: &str) -> (res: Option<String>)
    ensures
        opt_chars(res) == normalized_ext(path@),
{
    match extension(path) {
        None => None,
        Some(e) => Some(to_ascii_lowercase(e.as_str())),
    }
}

/// The extensions whose files are checked.
pub open spec fn is_supported_ext(e: Seq<char>) -> bool {
    e == "mp3"@ || e == "m4a"@ || e == "mp4"@ || e == "flac"@
}

/// The audio extensions that are counted but not checked.
pub open spec fn is_unsupported_audio_ext(e: Seq<char>) -> bool {
    ||| e == "aac"@
    ||| e == "aiff"@
    ||| e == "alac"@
    ||| e == "ape"@
    ||| e == "dsd"@
    ||| e == "dsf"@
    ||| e == "ogg"@
    ||| e == "opus"@
    ||| e == "wav"@
    ||| e == "wma"@
}

/// The kind of a path by its (lower-cased) extension.
pub open spec fn extension_kind(path: Seq<char>) -> ExtensionKind {
    match normalized_ext(path) {
        Some(e) => if is_supported_ext(e) {
            ExtensionKind::SupportedAudio
        } else if is_unsupported_audio_ext(e) {
            ExtensionKind::UnsupportedAudio
        } else {
            ExtensionKind::Ignored
        },
        None => ExtensionKind::Ignored,
    }
}

/// The reader for a path by its (lower-cased) extension.
pub open spec fn format_of(path: Seq<char>) -> Option<SupportedFormat> {
    match normalized_ext(path) {
        Some(e) => if e == "mp3"@ || e == "flac"@ {
            Some(SupportedFormat::FrontCoverTagged)
        } else if e == "m4a"@ || e == "mp4"@ {
            Some(SupportedFormat::Mp4Like)
        } else {
            None
        },
        None => None,
    }
}

fn ext_is(e: &Option<String>, name: &str) -> (res: bool)
    ensures
        res == (opt_chars(*e) == Some(name@)),
{
    match e {
        Some(s) => str_equal(s.as_str(), name),
        None => false,
    }
}

/// Whether `path` is a checked audio file, an audio file the check skips, or
/// something else.
pub fn classify_extension(path: &str) -> (res: ExtensionKind)
    ensures
        res == extension_kind(path@),
{
    let e = normalized_extension(path);
    if ext_is(&e, "mp3") || ext_is(&e, "m4a") || ext_is(&e, "mp4") || ext_is(&e, "flac") {
        ExtensionKind::SupportedAudio
    } else if ext_is(&e, "aac") || ext_is(&e, "aiff") || ext_is(&e, "alac") || ext_is(&e, "ape")
        || ext_is(&e, "dsd") || ext_is(&e, "dsf") || ext_is(&e, "ogg") || ext_is(&e, "opus")
        || ext_is(&e, "wav") || ext_is(&e, "wma") {
        ExtensionKind::UnsupportedAudio
    } else {
        ExtensionKind::Ignored
    }
}

/// Which reader handles `path`, if its format is supported.
pub fn supported_format(path: &str) -> (res: Option<SupportedFormat>)
    ensures
        res == format_of(path@),
{
    let e = normalized_extension(path);
    if ext_is(&e, "mp3") || ext_is(&e, "flac") {
        Some(SupportedFormat::FrontCoverTagged)
    } else if ext_is(&e, "m4a") || ext_is(&e, "mp4") {
        Some(SupportedFormat::Mp4Like)
    } else {
        None
    }
}

/// The names of image files that hint at an external cover.
pub open spec fn cover_file_names() -> Seq<Seq<char>> {
    seq![
        "cover.jpg"@,
        "cover.jpeg"@,
        "cover.png"@,
        "folder.jpg"@,
        "folder.jpeg"@,
        "folder.png"@,
        "front.jpg"@,
        "front.jpeg"@,
        "front.png"@,
    ]
}

/// The image files beside `path` whose presence hints at an external cover,
/// in the order in which they are looked for; none when `path` has no parent.
pub fn external_cover_candidates(path: &str) -> (res: Vec<String>)
    ensures
        match path_parent(path@) {
            None => res@.len() == 0,
            Some(dir) => {
                &&& res@.len() == cover_file_names().len()
                &&& forall|i: int|
                    0 <= i < res@.len() ==> #[trigger] res@[i]@ == path_join(dir, cover_file_names()[i])
            },
        },
{
    let mut out: Vec<String> = Vec::new();
    let dir = match parent(path) {
        None => {
            return out;
        },
        Some(d) => d,
    };
    let names: [&str; 9] = [
        "cover.jpg",
        "cover.jpeg",
        "cover.png",
        "folder.jpg",
        "folder.jpeg",
        "folder.png",
        "front.jpg",
        "front.jpeg",
        "front.png",
    ];
    let ghost want = cover_file_names();
    assert(names@.len() == 9);
    assert(forall|i: int| 0 <= i < 9 ==> #[trigger] names@[i]@ == want[i]);
    for i in 0..9
        invariant
            want == cover_file_names(),
            names@.len() == 9,
            forall|i: int| 0 <= i < 9 ==> #[trigger] names@[i]@ == want[i],
            opt_chars(Some(dir)) == path_parent(path@),
            out@.len() == i,
            forall|j: int| 0 <= j < i ==> #[trigger] out@[j]@ == path_join(dir@, want[j]),
    {
        out.push(join(dir.as_str(), names[i]));
    }
    out
}

/// Whether any of the candidate cover images was found to be a file.
pub fn has_external_cover_hint(candidate_is_file: &Vec<bool>) -> (res: bool)
    ensures
        res == exists|i: int| 0 <= i < candidate_is_file@.len() && candidate_is_file@[i],
{
    for i in 0..candidate_is_file.len()
        invariant
            forall|j: int| 0 <= j < i ==> !candidate_is_file@[j],
    {
        if candidate_is_file[i] {
            return true;
        }
    }
    false
}

/// A tag value, unless it is missing or blank, in which case `fallback`.
pub open spec fn tag_or(value: Option<Seq<char>>, fallback: Seq<char>) -> Seq<char> {
    match value {
        Some(v) => if is_blank(v) {
            fallback
        } else {
            v
        },
        None => fallback,
    }
}

fn tag_or_exec(value: Option<String>, fallback: &str) -> (res: String)
    ensures
        res@ == tag_or(opt_chars(value), fallback@),
{
    match value {
        Some(v) => if is_blank_str(v.as_str()) {
            owned(fallback)
        } else {
            v
        },
        None => owned(fallback),
    }
}

/// A picture that counts as an embedded front cover: one typed as front
/// cover, or the artwork of an MP4 tag.
pub open spec fn is_front(p: PictureKind) -> bool {
    p == PictureKind::FrontCover || p == PictureKind::Mp4Artwork
}

/// Some picture counts as an embedded front cover.
pub open spec fn has_front(pictures: Seq<PictureKind>) -> bool {
    exists|i: int| 0 <= i < pictures.len() && is_front(pictures[i])
}

/// The record that `read_song_record` gives for `path` when it succeeds.
pub open spec fn song_record_matches(r: SongRecord, path: Seq<char>, tags: TagInfo, external_cover_hint: bool) -> bool {
    &&& r.album@ == tag_or(opt_chars(tags.album), UNKNOWN_ALBUM@)
    &&& r.artist@ == tag_or(opt_chars(tags.artist), UNKNOWN_ARTIST@)
    &&& Some(r.parent_directory@) == path_parent(path)
    &&& r.has_front_cover == has_front(tags.pictures@)
    &&& r.has_external_cover_hint == external_cover_hint
}

/// The record of a supported audio file from what its tags gave. Fails, with
/// the message the scan logs, when the format is not supported, when reading
/// the tags failed (`tags` holds that failure's message) or when the path has
/// no parent directory.
pub fn read_song_record(path: &str, tags: Result<TagInfo, String>, external_cover_hint: bool) -> (res: Result<SongRecord, String>)
    ensures
        format_of(path@) is None ==> (res matches Err(m) && m@ == "unsupported format for metadata read: "@ + path@),
        format_of(path@) is Some ==> match tags {
            Err(msg) => res matches Err(m) && m@ == msg@,
            Ok(t) => match path_parent(path@) {
                None => res matches Err(m) && m@ == "file has no parent directory: "@ + path@,
                Some(_) => res matches Ok(r) && song_record_matches(r, path@, t, external_cover_hint),
            },
        },
{
    match supported_format(path) {
        None => {
            return Err(concat2("unsupported format for metadata read: ", path));
        },
        Some(_) => {},
    }
    match tags {
        Err(msg) => Err(msg),
        Ok(t) => {
            let album = tag_or_exec(t.album, UNKNOWN_ALBUM);
            let artist = tag_or_exec(t.artist, UNKNOWN_ARTIST);
            let mut front = false;
            let mut i: usize = 0;
            while i < t.pictures.len()
                invariant
                    i <= t.pictures@.len(),
                    front == exists|j: int| 0 <= j < i && is_front(t.pictures@[j]),
                decreases t.pictures@.len() - i,
            {
                if t.pictures[i] == PictureKind::FrontCover || t.pictures[i] == PictureKind::Mp4Artwork {
                    front = true;
                }
                i = i + 1;
            }
            build_song_record(path, album, artist, front, external_cover_hint)
        },
    }
}

/// A record for `path` with the given values; fails when `path` has no parent.
fn build_song_record(path: &str, album: String, artist: String, has_front_cover: bool, external_cover_hint: bool) -> (res: Result<SongRecord, String>)
    ensures
        match path_parent(path@) {
            None => res matches Err(m) && m@ == "file has no parent directory: "@ + path@,
            Some(dir) => res matches Ok(r) && r.album@ == album@ && r.artist@ == artist@
                && r.parent_directory@ == dir && r.has_front_cover == has_front_cover
                && r.has_external_cover_hint == external_cover_hint,
        },
{
    match parent(path) {
        None => Err(concat2("file has no parent directory: ", path)),
        Some(parent_directory) => Ok(SongRecord {
            album,
            artist,
            parent_directory,
            has_front_cover,
            has_external_cover_hint: external_cover_hint,
        }),
    }
}

} // verus!
