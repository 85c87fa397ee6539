//! Playing what is on disk already: which file stands for a request, and whether it is whole.
use vstd::prelude::*;

use crate::collections::StringSet;
use crate::text::{
    begins, contains, ends, ends_with, lowercase, mentions, starts_with, to_lowercase,
};
use crate::titles::{opt, opt_str};
use crate::validation::{sanitized, title_tokens_match, tokens_match};

verus! {

/// The size of a file: as it says, and in blocks of 512 bytes as the disk holds it.
#[derive(Debug, Clone, Copy)]
pub struct FileMeta {
    pub len: u64,
    pub blocks: u64,
}

/// A file on disk.
#[derive(Debug)]
pub struct DiskFile {
    pub name: String,
    pub path: String,
    /// Whether it is a link; none where that could not be had.
    pub symlink: Option<bool>,
    /// Its size, links followed; none where it could not be had.
    pub meta: Option<FileMeta>,
}

/// What an entry of the media directory is.
#[derive(Debug, Clone, Copy, PartialEq, Eq, Structural)]
pub enum EntryKind {
    /// A directory, which may be marked as complete.
    Directory(bool),
    File,
    Other,
}

/// An entry of the media directory, with the files in it; a file is the one file of its entry.
#[derive(Debug)]
pub struct DiskEntry {
    pub name: String,
    pub kind: EntryKind,
    pub files: Vec<DiskFile>,
}

// -------------------------------------------------------------------- health
/// A file of which the disk holds less than it says, by more than a twentieth.
pub open spec fn is_sparse(m: FileMeta) -> bool {
    m.blocks * 512 < (m.len * 95) / 100
}

/// A file of the size that is expected of it, within a hundredth either way, that is not sparse.
/// Nothing is expected where the size is not known.
pub open spec fn physically_full(meta: Option<FileMeta>, expected_bytes: u64) -> bool {
    match meta {
        Some(m) => {
            &&& expected_bytes > 0 ==> (expected_bytes * 99) / 100 <= m.len <= (expected_bytes * 101)
                / 100
            &&& !is_sparse(m)
        },
        None => false,
    }
}

fn sparse(m: &FileMeta) -> (r: bool)
    ensures
        r == is_sparse(*m),
{
    (m.blocks as u128 * 512) < (m.len as u128 * 95) / 100
}

/// Decides [`physically_full`].
pub fn is_physically_full(meta: Option<FileMeta>, expected_bytes: u64) -> (r: bool)
    ensures
        r == physically_full(meta, expected_bytes),
{
    match meta {
        Some(m) => {
            if expected_bytes > 0 {
                let least: u128 = (expected_bytes as u128 * 99) / 100;
                let most: u128 = (expected_bytes as u128 * 101) / 100;
                if (m.len as u128) < least || m.len as u128 > most {
                    return false;
                }
            }
            !sparse(&m)
        },
        None => false,
    }
}

/// A file in a directory may be played: it is no link, and it is as full as expected; where
/// nothing is expected, its directory is marked as complete.
pub open spec fn healthy_inside(f: DiskFile, marked: bool, expected_bytes: u64) -> bool {
    &&& f.symlink == Some(false)
    &&& if expected_bytes > 0 {
        physically_full(f.meta, expected_bytes)
    } else {
        marked && physically_full(f.meta, 0)
    }
}

/// Decides [`healthy_inside`].
pub fn local_bypass_file_is_healthy(file: &DiskFile, has_done_marker: bool, expected_bytes: u64) -> (r:
    bool)
    ensures
        r == healthy_inside(*file, has_done_marker, expected_bytes),
{
    let link = match file.symlink {
        Some(b) => b,
        None => true,
    };
    if link {
        return false;
    }
    if expected_bytes > 0 {
        return is_physically_full(file.meta, expected_bytes);
    }
    has_done_marker && is_physically_full(file.meta, 0)
}

/// The least size of a film, in bytes.
pub const MIN_MOVIE_SIZE_BYTES: u64 = 104_857_600;

/// A file on the top level may be played: it is of a film's size, not sparse, and, where a size
/// is expected, within a quarter of it.
pub open spec fn healthy_top_level(meta: Option<FileMeta>, expected_bytes: u64) -> bool {
    match meta {
        Some(m) => {
            &&& m.len >= MIN_MOVIE_SIZE_BYTES
            &&& expected_bytes > 0 ==> (expected_bytes * 75) / 100 <= m.len <= (expected_bytes * 125)
                / 100
            &&& !is_sparse(m)
        },
        None => false,
    }
}

/// Decides [`healthy_top_level`].
pub fn top_level_file_is_healthy(meta: Option<FileMeta>, expected_bytes: u64) -> (r: bool)
    ensures
        r == healthy_top_level(meta, expected_bytes),
{
    match meta {
        Some(m) => {
            if m.len < MIN_MOVIE_SIZE_BYTES {
                return false;
            }
            if expected_bytes > 0 {
                let least: u128 = (expected_bytes as u128 * 75) / 100;
                let most: u128 = (expected_bytes as u128 * 125) / 100;
                if (m.len as u128) < least || m.len as u128 > most {
                    return false;
                }
            }
            !sparse(&m)
        },
        None => false,
    }
}

// ------------------------------------------------------------------- matching
/// The name of a film's file, which a transcode is not.
pub open spec fn is_media_name(name: Seq<char>) -> bool {
    &&& (ends_with(name, ".mp4"@) || ends_with(name, ".mkv"@)) && name.len() > 4
    &&& !starts_with(name, "transcoded"@)
}

fn media_name(name: &str) -> (r: bool)
    ensures
        r == is_media_name(name@),
{
    (ends(name, ".mp4") || ends(name, ".mkv")) && name.unicode_len() > 4 && !begins(
        name,
        "transcoded",
    )
}

/// A year that the title names is in the entry's name too.
pub open spec fn year_fits(name: Seq<char>, title: Seq<char>) -> bool {
    if contains(title, "2026"@) {
        contains(name, "2026"@)
    } else if contains(title, "2025"@) {
        contains(name, "2025"@)
    } else {
        true
    }
}

fn fits_year(name: &str, title: &str) -> (r: bool)
    ensures
        r == year_fits(name@, title@),
{
    if mentions(title, "2026") {
        mentions(name, "2026")
    } else if mentions(title, "2025") {
        mentions(name, "2025")
    } else {
        true
    }
}

/// A resolution that is asked for, in lower case, is in the entry's name.
pub open spec fn quality_fits(name: Seq<char>, quality: Option<Seq<char>>) -> bool {
    match quality {
        Some(q) => if contains(q, "2160p"@) || contains(q, "4k"@) {
            contains(name, "2160p"@) || contains(name, "4k"@) || contains(name, "2160"@)
        } else if contains(q, "1080p"@) {
            contains(name, "1080p"@) || contains(name, "1080"@)
        } else {
            true
        },
        None => true,
    }
}

/// Decides [`quality_fits`].
pub fn fits_quality(name: &str, quality_lower: Option<&str>) -> (r: bool)
    ensures
        r == quality_fits(name@, opt_str(quality_lower)),
{
    match quality_lower {
        Some(q) => if mentions(q, "2160p") || mentions(q, "4k") {
            mentions(name, "2160p") || mentions(name, "4k") || mentions(name, "2160")
        } else if mentions(q, "1080p") {
            mentions(name, "1080p") || mentions(name, "1080")
        } else {
            true
        },
        None => true,
    }
}

/// A request in lower case, where there is one.
pub open spec fn lower_opt(quality: Option<Seq<char>>) -> Option<Seq<char>> {
    match quality {
        Some(q) => Some(lowercase(q)),
        None => None,
    }
}

/// An entry is what a request is for, by its name.
pub open spec fn entry_fits(name: Seq<char>, title: Seq<char>, quality: Option<Seq<char>>) -> bool {
    &&& tokens_match(sanitized(lowercase(name)), sanitized(lowercase(title)))
    &&& year_fits(name, title)
    &&& quality_fits(name, lower_opt(quality))
}

fn fits(entry: &DiskEntry, title: &str, quality: Option<&str>) -> (r: bool)
    ensures
        r == entry_fits(entry.name@, title@, opt_str(quality)),
{
    let name = entry.name.as_str();
    if !title_tokens_match(name, title) || !fits_year(name, title) {
        return false;
    }
    match quality {
        Some(q) => {
            let lower = to_lowercase(q);
            fits_quality(name, Some(lower.as_str()))
        },
        None => true,
    }
}

/// A file of an entry may be played in place of a download.
pub open spec fn playable(
    e: DiskEntry,
    f: DiskFile,
    expected_bytes: u64,
    corrupt: Set<Seq<char>>,
) -> bool {
    &&& is_media_name(f.name@)
    &&& match e.kind {
        EntryKind::Directory(marked) => healthy_inside(f, marked, expected_bytes),
        EntryKind::File => healthy_top_level(f.meta, expected_bytes),
        EntryKind::Other => false,
    }
    &&& !corrupt.contains(f.path@)
}

fn can_play(e: &DiskEntry, f: &DiskFile, expected_bytes: u64, corrupt: &StringSet) -> (r: bool)
    ensures
        r == playable(*e, *f, expected_bytes, corrupt@),
{
    if !media_name(f.name.as_str()) {
        return false;
    }
    let healthy = match e.kind {
        EntryKind::Directory(marked) => local_bypass_file_is_healthy(f, marked, expected_bytes),
        EntryKind::File => top_level_file_is_healthy(f.meta, expected_bytes),
        EntryKind::Other => false,
    };
    healthy && !corrupt.contains(f.path.as_str())
}

/// What a search on disk is for.
pub struct Wanted {
    pub title: Seq<char>,
    pub quality: Option<Seq<char>>,
    pub expected_bytes: u64,
    pub corrupt: Set<Seq<char>>,
}

/// An entry has nothing to play for a request.
pub open spec fn offers_nothing(e: DiskEntry, w: Wanted) -> bool {
    !entry_fits(e.name@, w.title, w.quality) || forall|j: int|
        0 <= j < e.files@.len() ==> !playable(
            e,
            #[trigger] e.files@[j],
            w.expected_bytes,
            w.corrupt,
        )
}

/// The file at `j` of the entry at `i` is the first that may be played.
pub open spec fn is_match(entries: Seq<DiskEntry>, w: Wanted, i: int, j: int) -> bool {
    &&& 0 <= i < entries.len()
    &&& 0 <= j < entries[i].files@.len()
    &&& entry_fits(entries[i].name@, w.title, w.quality)
    &&& playable(entries[i], entries[i].files@[j], w.expected_bytes, w.corrupt)
    &&& forall|k: int|
        0 <= k < j ==> !playable(
            entries[i],
            #[trigger] entries[i].files@[k],
            w.expected_bytes,
            w.corrupt,
        )
    &&& forall|k: int| 0 <= k < i ==> offers_nothing(#[trigger] entries[k], w)
}

/// Some file of the entries is the first that may be played, and its path is `path`.
pub open spec fn found_at(entries: Seq<DiskEntry>, w: Wanted, path: Seq<char>) -> bool {
    exists|i: int, j: int|
        #[trigger] is_match(entries, w, i, j) && entries[i].files@[j].path@ == path
}

/// What a search of the entries gives: the path of the first file that may be played, and none
/// where no entry has one.
pub open spec fn is_found(entries: Seq<DiskEntry>, w: Wanted, path: Option<Seq<char>>) -> bool {
    match path {
        Some(p) => found_at(entries, w, p),
        None => forall|i: int| 0 <= i < entries.len() ==> offers_nothing(#[trigger] entries[i], w),
    }
}

/// Finds, among the entries of the media directory, the first file that may be played in place
/// of a download.
pub fn find_local_bypass_match(
    entries: &Vec<DiskEntry>,
    title: &str,
    quality: Option<&str>,
    expected_bytes: u64,
    corrupt_files: &StringSet,
) -> (r: Option<String>)
    ensures
        is_found(
            entries@,
            (Wanted {
                title: title@,
                quality: opt_str(quality),
                expected_bytes,
                corrupt: corrupt_files@,
            }),
            opt(r),
        ),
{
    let ghost w = Wanted {
        title: title@,
        quality: opt_str(quality),
        expected_bytes,
        corrupt: corrupt_files@,
    };
    let n: usize = entries.len();
    let mut i: usize = 0;
    while i < n
        invariant
            n == entries@.len(),
            i <= n,
            w == (Wanted {
                title: title@,
                quality: opt_str(quality),
                expected_bytes,
                corrupt: corrupt_files@,
            }),
            forall|k: int| 0 <= k < i ==> offers_nothing(#[trigger] entries@[k], w),
        decreases n - i,
    {
        let e = &entries[i];
        if fits(e, title, quality) {
            let m: usize = e.files.len();
            let mut j: usize = 0;
            while j < m
                invariant
                    i < n,
                    n == entries@.len(),
                    *e == entries@[i as int],
                    m == e.files@.len(),
                    j <= m,
                    w == (Wanted {
                        title: title@,
                        quality: opt_str(quality),
                        expected_bytes,
                        corrupt: corrupt_files@,
                    }),
                    entry_fits(e.name@, w.title, w.quality),
                    forall|k: int| 0 <= k < i ==> offers_nothing(#[trigger] entries@[k], w),
                    forall|k: int|
                        0 <= k < j ==> !playable(
                            *e,
                            #[trigger] e.files@[k],
                            w.expected_bytes,
                            w.corrupt,
                        ),
                decreases m - j,
            {
                if can_play(e, &e.files[j], expected_bytes, corrupt_files) {
                    let path = e.files[j].path.clone();
                    assert(is_match(entries@, w, i as int, j as int));
                    assert(found_at(entries@, w, path@));
                    return Some(path);
                }
                j += 1;
            }
            assert(offers_nothing(entries@[i as int], w));
        }
        i += 1;
    }
    None
}

/// What is found on disk is a film's file that is not known to be corrupt and is not sparse, in
/// an entry that fits the request; where a size is expected, it is within a quarter of it.
pub proof fn found_files_are_sound(entries: Seq<DiskEntry>, w: Wanted, path: Seq<char>)
    requires
        found_at(entries, w, path),
    ensures
        !w.corrupt.contains(path),
        exists|i: int, j: int|
            {
                &&& 0 <= i < entries.len()
                &&& 0 <= j < entries[i].files@.len()
                &&& entries[i].files@[j].path@ == path
                &&& is_media_name((#[trigger] entries[i].files@[j]).name@)
                &&& entries[i].files@[j].meta is Some
                &&& !is_sparse(entries[i].files@[j].meta->0)
                &&& w.expected_bytes > 0 ==> (w.expected_bytes * 75) / 100
                    <= entries[i].files@[j].meta->0.len <= (w.expected_bytes * 125) / 100
                &&& entry_fits(entries[i].name@, w.title, w.quality)
            },
{
    let (i, j) = choose|i: int, j: int|
        #[trigger] is_match(entries, w, i, j) && entries[i].files@[j].path@ == path;
    let f = entries[i].files@[j];
    assert(is_media_name(f.name@));
}

// --------------------------------------------------------------------- marking
/// A directory that fits a title by name, and holds a film's file that is as full as expected.
pub open spec fn holds_whole_film(
    folder_name: Seq<char>,
    title: Seq<char>,
    expected_bytes: u64,
    files: Seq<DiskFile>,
) -> bool {
    &&& expected_bytes > 0
    &&& tokens_match(sanitized(lowercase(folder_name)), sanitized(lowercase(title)))
    &&& exists|j: int| 0 <= j < files.len() && is_full_film(#[trigger] files[j], expected_bytes)
}

/// Whether a directory is to be marked as complete: it fits the title by name, and holds a film's
/// file that is as full as expected.
pub fn should_mark_done(
    folder_name: &str,
    title: &str,
    expected_bytes: u64,
    files: &Vec<DiskFile>,
) -> (r: bool)
    ensures
        r == holds_whole_film(folder_name@, title@, expected_bytes, files@),
{
    if expected_bytes == 0 || !title_tokens_match(folder_name, title) {
        return false;
    }
    let n: usize = files.len();
    let mut j: usize = 0;
    while j < n
        invariant
            n == files@.len(),
            j <= n,
            expected_bytes > 0,
            tokens_match(sanitized(lowercase(folder_name@)), sanitized(lowercase(title@))),
            forall|k: int| 0 <= k < j ==> !is_full_film(#[trigger] files@[k], expected_bytes),
        decreases n - j,
    {
        let f = &files[j];
        let name = f.name.as_str();
        if (ends(name, ".mp4") || ends(name, ".mkv")) && name.unicode_len() > 4
            && is_physically_full(f.meta, expected_bytes) {
            assert(is_full_film(files@[j as int], expected_bytes));
            return true;
        }
        j += 1;
    }
    false
}

/// A film's file that is as large and as full as expected.
pub open spec fn is_full_film(f: DiskFile, expected_bytes: u64) -> bool {
    &&& ends_with(f.name@, ".mp4"@) || ends_with(f.name@, ".mkv"@)
    &&& f.name@.len() > 4
    &&& physically_full(f.meta, expected_bytes)
}

} // verus!
