//! What a search found, as far as playing and queueing need it.
use vstd::prelude::*;

use crate::text::{padded, push_padded};

verus! {

/// A source that a search found.
#[derive(Debug, Clone)]
pub struct TorrentResult {
    pub id: usize,
    pub title: String,
    pub magnet: String,
    pub quality: String,
    pub size: String,
    pub file_index: Option<u32>,
}

/// The show or film that a search was for.
#[derive(Debug, Clone)]
pub struct ShowInfo {
    pub title: String,
    pub imdb_id: Option<String>,
    pub poster_url: Option<String>,
}

/// The episode that a search was for.
#[derive(Debug, Clone, Copy)]
pub struct EpisodeRef {
    pub season: u32,
    pub episode: u32,
}

/// What a search found.
#[derive(Debug, Clone)]
pub struct SearchResult {
    pub results: Vec<TorrentResult>,
    pub show: Option<ShowInfo>,
    pub searching: Option<EpisodeRef>,
    pub torrent_available: bool,
}

/// `Show S01E02`: the title of an episode.
pub open spec fn episode_title(show: Seq<char>, season: u32, episode: u32) -> Seq<char> {
    show + " S"@ + padded(season as nat, 2) + "E"@ + padded(episode as nat, 2)
}

/// Writes [`episode_title`].
pub fn episode_title_text(show: &str, season: u32, episode: u32) -> (r: String)
    ensures
        r@ == episode_title(show@, season, episode),
{
    let mut t = show.to_owned();
    t.append(" S");
    push_padded(&mut t, season as u64, 2);
    t.append("E");
    push_padded(&mut t, episode as u64, 2);
    t
}

/// `i` is the first result with an id.
pub open spec fn is_result(s: SearchResult, id: usize, i: int) -> bool {
    &&& 0 <= i < s.results@.len()
    &&& s.results@[i].id == id
    &&& forall|j: int| 0 <= j < i ==> (#[trigger] s.results@[j]).id != id
}

/// No result has the id.
pub open spec fn lacks_result(s: SearchResult, id: usize) -> bool {
    forall|j: int| 0 <= j < s.results@.len() ==> (#[trigger] s.results@[j]).id != id
}

/// The name under which a result of a search is played.
pub open spec fn play_title(s: SearchResult, r: TorrentResult) -> Seq<char> {
    match (s.show, s.searching) {
        (Some(show), Some(ep)) => episode_title(show.title@, ep.season, ep.episode),
        (Some(show), None) => show.title@,
        _ => r.title@,
    }
}

impl SearchResult {
    /// The first result with an id.
    pub fn find(&self, id: usize) -> (r: Option<usize>)
        ensures
            match r {
                Some(i) => is_result(*self, id, i as int),
                None => lacks_result(*self, id),
            },
    {
        let n: usize = self.results.len();
        let mut i: usize = 0;
        while i < n
            invariant
                n == self.results@.len(),
                i <= n,
                forall|j: int| 0 <= j < i ==> (#[trigger] self.results@[j]).id != id,
            decreases n - i,
        {
            if self.results[i].id == id {
                return Some(i);
            }
            i += 1;
        }
        None
    }

    /// Writes [`play_title`].
    pub fn title_for(&self, result: &TorrentResult) -> (r: String)
        ensures
            r@ == play_title(*self, *result),
    {
        match (&self.show, &self.searching) {
            (Some(show), Some(ep)) => episode_title_text(show.title.as_str(), ep.season, ep.episode),
            (Some(show), None) => show.title.clone(),
            _ => result.title.clone(),
        }
    }
}

} // verus!
