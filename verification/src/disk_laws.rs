//! What is promised of playing what is on disk: a whole film that is there is found, and nothing
//! that is broken, half there or another film is.
use vstd::prelude::*;

use crate::local_bypass::{
    holds_whole_film, is_found, is_match, is_media_name, DiskEntry, DiskFile, EntryKind, FileMeta,
    Wanted,
};
use crate::numbers::words;
use crate::reaper::corruption_noted;
use crate::state::AppState;
use crate::text::{contains, ends_with, lowercase, starts_with};
use crate::text_laws::{prefixes_come_off, suffixes_come_off};
use crate::validation::sanitized;

verus! {

/// A name that ends in `.mp4` or `.mkv` with something before it, and does not begin with
/// `transcoded`.
pub open spec fn names_a_film(name: Seq<char>) -> bool {
    &&& ends_with(name, ".mp4"@) || ends_with(name, ".mkv"@)
    &&& name.len() > 4
    &&& !starts_with(name, "transcoded"@)
}

/// The disk holds all but a twentieth of a file at least.
pub open spec fn is_dense(m: FileMeta) -> bool {
    m.blocks * 512 >= m.len * 95 / 100
}

/// The size of a file is within `share` parts of a hundred of what is expected, where anything is.
pub open spec fn fits_size(m: FileMeta, expected_bytes: u64, share: int) -> bool {
    expected_bytes > 0 ==> expected_bytes * (100 - share) / 100 <= m.len <= expected_bytes * (100
        + share) / 100
}

/// Every word of a title, reduced to its letters and digits, stands in a name that is reduced
/// alike, and there is a word.
pub open spec fn has_every_word(name: Seq<char>, title: Seq<char>) -> bool {
    let tokens = words(sanitized(lowercase(title)));
    tokens.len() > 0 && forall|i: int|
        0 <= i < tokens.len() ==> contains(sanitized(lowercase(name)), #[trigger] tokens[i])
}

/// The year that a title names, of the two that are told apart, is in the name too.
pub open spec fn has_the_year(name: Seq<char>, title: Seq<char>) -> bool {
    &&& contains(title, "2026"@) ==> contains(name, "2026"@)
    &&& contains(title, "2025"@) && !contains(title, "2026"@) ==> contains(name, "2025"@)
}

/// The resolution that is asked for is in the name.
pub open spec fn has_the_quality(name: Seq<char>, quality: Option<Seq<char>>) -> bool {
    quality is Some ==> {
        let q = lowercase(quality->0);
        let uhd = contains(q, "2160p"@) || contains(q, "4k"@);
        &&& uhd ==> contains(name, "2160p"@) || contains(name, "4k"@) || contains(name, "2160"@)
        &&& !uhd && contains(q, "1080p"@) ==> contains(name, "1080p"@) || contains(name, "1080"@)
    }
}

/// A file that a request may be given: it is a film's, of the size that is expected, all there, and
/// nothing is known against it. In a directory no link is taken, and without an expected size only
/// what is in a directory that is marked as complete; on the top level nothing small is.
pub open spec fn is_whole(e: DiskEntry, f: DiskFile, w: Wanted) -> bool {
    &&& names_a_film(f.name@)
    &&& !w.corrupt.contains(f.path@)
    &&& f.meta is Some
    &&& is_dense(f.meta->0)
    &&& match e.kind {
        EntryKind::Directory(marked) => {
            &&& f.symlink == Some(false)
            &&& fits_size(f.meta->0, w.expected_bytes, 1)
            &&& w.expected_bytes > 0 || marked
        },
        EntryKind::File => {
            &&& f.meta->0.len >= 104_857_600
            &&& fits_size(f.meta->0, w.expected_bytes, 25)
        },
        EntryKind::Other => false,
    }
}

/// A whole film that is there is found: where some entry has the title's words, its year and the
/// resolution that is asked for in its name, and such a file in it, the search finds something.
pub proof fn a_whole_film_is_found(
    entries: Seq<DiskEntry>,
    w: Wanted,
    found: Option<Seq<char>>,
    i: int,
    j: int,
)
    requires
        is_found(entries, w, found),
        0 <= i < entries.len(),
        0 <= j < entries[i].files@.len(),
        has_every_word(entries[i].name@, w.title),
        has_the_year(entries[i].name@, w.title),
        has_the_quality(entries[i].name@, w.quality),
        is_whole(entries[i], entries[i].files@[j], w),
    ensures
        found is Some,
{
    if found is None {
        assert(crate::local_bypass::offers_nothing(entries[i], w));
        assert(crate::local_bypass::playable(
            entries[i],
            entries[i].files@[j],
            w.expected_bytes,
            w.corrupt,
        ));
    }
}

/// What is found is a whole film that was asked for, and the first such: its entry has the title's
/// words, the year and the resolution in its name, and none before it has anything to play.
pub proof fn what_is_found_is_whole(entries: Seq<DiskEntry>, w: Wanted, found: Option<Seq<char>>)
    requires
        is_found(entries, w, found),
        found is Some,
    ensures
        exists|i: int, j: int|
            {
                &&& 0 <= i < entries.len()
                &&& 0 <= j < entries[i].files@.len()
                &&& (#[trigger] entries[i].files@[j]).path@ == found->0
                &&& is_whole(entries[i], entries[i].files@[j], w)
                &&& has_every_word(entries[i].name@, w.title)
                &&& has_the_year(entries[i].name@, w.title)
                &&& has_the_quality(entries[i].name@, w.quality)
                &&& forall|k: int, l: int|
                    0 <= k < i && 0 <= l < entries[k].files@.len() && has_every_word(
                        entries[k].name@,
                        w.title,
                    ) && has_the_year(entries[k].name@, w.title) && has_the_quality(
                        entries[k].name@,
                        w.quality,
                    ) ==> !is_whole(entries[k], #[trigger] entries[k].files@[l], w)
            },
{
    let (i, j) = choose|i: int, j: int|
        #[trigger] is_match(entries, w, i, j) && entries[i].files@[j].path@ == found->0;
    let f = entries[i].files@[j];
    assert(is_whole(entries[i], f, w));
    assert forall|k: int, l: int|
        0 <= k < i && 0 <= l < entries[k].files@.len() && has_every_word(entries[k].name@, w.title)
            && has_the_year(entries[k].name@, w.title) && has_the_quality(
            entries[k].name@,
            w.quality,
        ) implies !is_whole(entries[k], #[trigger] entries[k].files@[l], w) by {
        assert(crate::local_bypass::offers_nothing(entries[k], w));
        let g = entries[k].files@[l];
        assert(!crate::local_bypass::playable(entries[k], g, w.expected_bytes, w.corrupt));
    }
}

/// The kind of a file is told by its name: `.mp4` and `.mkv` are films, whatever stands before
/// them, and transcodes of ours are none.
pub proof fn films_are_told_by_their_names(stem: Seq<char>, rest: Seq<char>)
    ensures
        stem.len() > 0 && !starts_with(stem + ".mp4"@, "transcoded"@) ==> is_media_name(
            stem + ".mp4"@,
        ),
        stem.len() > 0 && !starts_with(stem + ".mkv"@, "transcoded"@) ==> is_media_name(
            stem + ".mkv"@,
        ),
        !is_media_name("transcoded"@ + rest),
{
    reveal_strlit(".mp4");
    reveal_strlit(".mkv");
    suffixes_come_off(stem, ".mp4"@);
    suffixes_come_off(stem, ".mkv"@);
    prefixes_come_off("transcoded"@, rest);
}

/// A source that a transcode has found to be corrupt is not found on disk again.
pub proof fn corrupt_sources_are_not_played_again(
    before: AppState,
    after: AppState,
    path: Seq<char>,
    log: Seq<char>,
    reason: Option<Seq<char>>,
    entries: Seq<DiskEntry>,
    w: Wanted,
    found: Option<Seq<char>>,
)
    requires
        corruption_noted(before, after, "file://"@ + path, log, reason),
        crate::transcode::corruption(log) is Some,
        w.corrupt == after.corrupt_files@,
        is_found(entries, w, found),
    ensures
        found != Some(path),
{
    reveal_strlit("file://");
    prefixes_come_off("file://"@, path);
    assert(after.corrupt_files@.contains(path));
    if found is Some {
        what_is_found_is_whole(entries, w, found);
    }
}

/// A directory is marked as complete exactly where it has the title's words in its name and holds a
/// film of the size that is expected, to within a hundredth, all of it there; where no size is
/// expected none is marked.
pub proof fn whole_downloads_are_marked(
    folder_name: Seq<char>,
    title: Seq<char>,
    expected_bytes: u64,
    files: Seq<DiskFile>,
    j: int,
)
    ensures
        0 <= j < files.len() && expected_bytes > 0 && has_every_word(folder_name, title) && (
        ends_with(files[j].name@, ".mp4"@) || ends_with(files[j].name@, ".mkv"@))
            && files[j].name@.len() > 4 && files[j].meta is Some && is_dense(files[j].meta->0)
            && fits_size(files[j].meta->0, expected_bytes, 1) ==> holds_whole_film(
            folder_name,
            title,
            expected_bytes,
            files,
        ),
        holds_whole_film(folder_name, title, expected_bytes, files) ==> expected_bytes > 0
            && has_every_word(folder_name, title) && exists|k: int|
            0 <= k < files.len() && (#[trigger] files[k]).meta is Some && is_dense(
                files[k].meta->0,
            ) && fits_size(files[k].meta->0, expected_bytes, 1) && (ends_with(
                files[k].name@,
                ".mp4"@,
            ) || ends_with(files[k].name@, ".mkv"@)) && files[k].name@.len() > 4,
{
    if 0 <= j < files.len() && expected_bytes > 0 && (ends_with(files[j].name@, ".mp4"@)
        || ends_with(files[j].name@, ".mkv"@)) && files[j].name@.len() > 4 && files[j].meta is Some
        && is_dense(files[j].meta->0) && fits_size(files[j].meta->0, expected_bytes, 1) {
        assert(crate::local_bypass::is_full_film(files[j], expected_bytes));
    }
    if holds_whole_film(folder_name, title, expected_bytes, files) {
        let k = choose|k: int|
            0 <= k < files.len() && crate::local_bypass::is_full_film(
                #[trigger] files[k],
                expected_bytes,
            );
        assert(files[k].meta is Some);
    }
}

} // verus!
