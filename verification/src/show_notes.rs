//! Notes on shows: one line each, kept by id or by title, and the one word for a show's status.
use vstd::prelude::*;

use crate::collections::StringMap;
use crate::hosts::last_index_of;
use crate::text::{
    ascii_lower, begins, chars_of, lowercase, same_ignoring_ascii_case, slice_copy, starts_with,
    string_of, to_lowercase, trim, trimmed,
};
use crate::titles::{clean_title, common_form, opt, opt_str};

verus! {

/// A note on a show.
#[derive(Debug, Clone)]
pub struct ShowNote {
    /// The line itself.
    pub note: String,
    /// The day on which it was written.
    pub as_of: Option<String>,
    /// Where it comes from.
    pub source: Option<String>,
}

impl Default for ShowNote {
    fn default() -> (r: Self)
        ensures
            r.note@.len() == 0,
            r.as_of is None,
            r.source is None,
    {
        ShowNote { note: String::new(), as_of: None, source: None }
    }
}

/// The notes, by the id of a show or by the common form of its title.
pub struct ShowNotes {
    pub notes: StringMap<ShowNote>,
}

impl Default for ShowNotes {
    fn default() -> (r: Self)
        ensures
            r.notes@ == Map::<Seq<char>, ShowNote>::empty(),
    {
        ShowNotes { notes: StringMap::new() }
    }
}

/// The file of the notes, beside that of the configuration.
pub open spec fn notes_file(config_path: Seq<char>) -> Seq<char> {
    config_path.take(last_index_of(config_path, '/') + 1) + "show_notes.json"@
}

/// Writes [`notes_file`].
pub fn notes_path(config_path: &str) -> (r: String)
    ensures
        r@ == notes_file(config_path@),
{
    let v = chars_of(config_path);
    let mut k: usize = v.len();
    assert(v@.take(k as int) =~= v@);
    while k > 0 && v[k - 1] != '/'
        invariant
            k <= v@.len(),
            last_index_of(v@.take(k as int), '/') == last_index_of(v@, '/'),
        decreases k,
    {
        assert(v@.take(k as int).last() == v@[k - 1]);
        assert(v@.take(k as int).drop_last() =~= v@.take(k - 1));
        k -= 1;
    }
    assert(k > 0 ==> v@.take(k as int).last() == v@[k - 1]);
    assert(last_index_of(v@, '/') == k - 1);
    let dir = slice_copy(&v, 0, k);
    assert(dir@ =~= v@.take(k as int));
    let mut path = string_of(&dir);
    path.append("show_notes.json");
    path
}

/// The key of a title.
pub open spec fn key_of_title(title: Seq<char>) -> Seq<char> {
    lowercase(common_form(title))
}

/// Reduces a title to its key.
pub fn title_key(title: &str) -> (r: String)
    ensures
        r@ == key_of_title(title@),
{
    to_lowercase(clean_title(title).as_str())
}

/// The key that a note is filed under: an id as it is, a title by its key.
pub open spec fn filing_key(key: Seq<char>) -> Seq<char> {
    if starts_with(key, "tt"@) {
        key
    } else {
        key_of_title(key)
    }
}

/// The note that is found for a show: that of its id, trimmed, where there is one, else that of
/// its title.
pub open spec fn note_for(
    notes: Map<Seq<char>, ShowNote>,
    imdb_id: Option<Seq<char>>,
    title: Seq<char>,
) -> Option<ShowNote> {
    let key = key_of_title(title);
    let by_title = if notes.contains_key(key) {
        Some(notes[key])
    } else {
        None
    };
    match imdb_id {
        Some(id) => if trim(id).len() > 0 && notes.contains_key(trim(id)) {
            Some(notes[trim(id)])
        } else {
            by_title
        },
        None => by_title,
    }
}

/// The notes with one set: a blank one clears what is there.
pub open spec fn notes_with(
    notes: Map<Seq<char>, ShowNote>,
    key: Seq<char>,
    note: ShowNote,
) -> Map<Seq<char>, ShowNote> {
    if trim(note.note@).len() == 0 {
        notes.remove(filing_key(key))
    } else {
        notes.insert(filing_key(key), note)
    }
}

impl ShowNotes {
    /// The note on a show.
    pub fn get(&self, imdb_id: Option<&str>, title: &str) -> (r: Option<&ShowNote>)
        ensures
            match r {
                Some(n) => note_for(self.notes@, opt_str(imdb_id), title@) == Some(*n),
                None => note_for(self.notes@, opt_str(imdb_id), title@) is None,
            },
    {
        if let Some(id) = imdb_id {
            let t = trimmed(id);
            if !t.as_str().is_empty() {
                if let Some(n) = self.notes.get(t.as_str()) {
                    return Some(n);
                }
            }
        }
        self.notes.get(title_key(title).as_str())
    }

    /// Sets the note under an id or a title.
    pub fn set(&mut self, key: &str, note: ShowNote)
        ensures
            final(self).notes@ == notes_with(old(self).notes@, key@, note),
    {
        let k = if begins(key, "tt") {
            key.to_owned()
        } else {
            title_key(key)
        };
        if trimmed(note.note.as_str()).as_str().is_empty() {
            self.notes.remove(k.as_str());
        } else {
            self.notes.insert(k, note);
        }
    }
}

/// A note that was set under a title is found by the title, whatever the id, unless the id has a
/// note of its own; and by every title of the same form.
pub proof fn a_note_is_found_by_its_title(
    before: Map<Seq<char>, ShowNote>,
    title: Seq<char>,
    other: Seq<char>,
    note: ShowNote,
    imdb_id: Option<Seq<char>>,
)
    requires
        !starts_with(title, "tt"@),
        trim(note.note@).len() > 0,
        common_form(other) == common_form(title),
        imdb_id matches Some(id) ==> trim(id) == key_of_title(title)
            || !before.contains_key(trim(id)),
    ensures
        note_for(notes_with(before, title, note), imdb_id, other) == Some(note),
{
}

/// A note that was set under an id is found by the id, whatever the title.
pub proof fn a_note_is_found_by_its_id(
    before: Map<Seq<char>, ShowNote>,
    id: Seq<char>,
    title: Seq<char>,
    note: ShowNote,
)
    requires
        starts_with(id, "tt"@),
        trim(id) == id,
        id.len() > 0,
        trim(note.note@).len() > 0,
    ensures
        note_for(notes_with(before, id, note), Some(id), title) == Some(note),
{
}

/// A blank note leaves none under its key, and every other note as it was.
pub proof fn a_blank_note_clears(
    before: Map<Seq<char>, ShowNote>,
    key: Seq<char>,
    note: ShowNote,
    other: Seq<char>,
)
    requires
        trim(note.note@).len() == 0,
        other != filing_key(key),
    ensures
        !notes_with(before, key, note).contains_key(filing_key(key)),
        notes_with(before, key, note).contains_key(other) == before.contains_key(other),
        before.contains_key(other) ==> notes_with(before, key, note)[other] == before[other],
{
}

// -------------------------------------------------------------------- status
/// What a source says, trimmed; nothing where it says nothing.
pub open spec fn said(status: Option<Seq<char>>) -> Seq<char> {
    match status {
        Some(s) => trim(s),
        None => Seq::empty(),
    }
}

/// Two words are the same but for the case of their letters.
pub open spec fn same_word(a: Seq<char>, b: Seq<char>) -> bool {
    ascii_lower(a) == ascii_lower(b)
}

/// The one word for a show, from what two sources say of it. A cancellation counts before an
/// end, an end from either source before a question, a question before a return, and a return
/// before a production.
pub open spec fn verdict(tmdb: Option<Seq<char>>, tvmaze: Option<Seq<char>>) -> Option<Seq<char>> {
    let t = said(tmdb);
    let v = said(tvmaze);
    if same_word(t, "Canceled"@) || same_word(t, "Cancelled"@) {
        Some("Cancelled"@)
    } else if same_word(t, "Ended"@) || same_word(v, "Ended"@) {
        Some("Ended"@)
    } else if same_word(v, "To Be Determined"@) {
        Some("Renewal undecided"@)
    } else if same_word(t, "Returning Series"@) || same_word(v, "Running"@) {
        Some("Returning"@)
    } else if same_word(t, "In Production"@) || same_word(t, "Planned"@) {
        Some("In production"@)
    } else {
        None
    }
}

fn text_said(status: Option<&str>) -> (r: String)
    ensures
        r@ == said(opt_str(status)),
{
    match status {
        Some(s) => trimmed(s),
        None => String::new(),
    }
}

/// Finds the one word for a show.
pub fn describe_status(tmdb_status: Option<&str>, tvmaze_status: Option<&str>) -> (r: Option<String>)
    ensures
        opt(r) == verdict(opt_str(tmdb_status), opt_str(tvmaze_status)),
{
    let ts = text_said(tmdb_status);
    let vs = text_said(tvmaze_status);
    let t = ts.as_str();
    let v = vs.as_str();
    if same_ignoring_ascii_case(t, "Canceled") || same_ignoring_ascii_case(t, "Cancelled") {
        Some("Cancelled".to_owned())
    } else if same_ignoring_ascii_case(t, "Ended") || same_ignoring_ascii_case(v, "Ended") {
        Some("Ended".to_owned())
    } else if same_ignoring_ascii_case(v, "To Be Determined") {
        Some("Renewal undecided".to_owned())
    } else if same_ignoring_ascii_case(t, "Returning Series") || same_ignoring_ascii_case(
        v,
        "Running",
    ) {
        Some("Returning".to_owned())
    } else if same_ignoring_ascii_case(t, "In Production") || same_ignoring_ascii_case(
        t,
        "Planned",
    ) {
        Some("In production".to_owned())
    } else {
        None
    }
}

} // verus!
