//! The key under which a complete transcode is kept for the next time.
use vstd::prelude::*;

use crate::text::{padded, push_padded};
use crate::titles::opt;

verus! {

/// The key of a transcode: the id, the season and the episode, the language of the subtitles and
/// whether an intro runs before it. None without an id.
pub open spec fn cache_key(
    imdb_id: Option<Seq<char>>,
    season: Option<u32>,
    episode: Option<u32>,
    subtitle_lang: Option<Seq<char>>,
    has_intro: bool,
) -> Option<Seq<char>> {
    match imdb_id {
        Some(id) => if id.len() > 0 {
            Some(
                id + (match (season, episode) {
                    (Some(s), Some(e)) => "_s"@ + padded(s as nat, 2) + "e"@ + padded(e as nat, 2),
                    _ => Seq::empty(),
                }) + (match subtitle_lang {
                    Some(l) => "_sub-"@ + l,
                    None => "_nosub"@,
                }) + (if has_intro {
                    "_intro"@
                } else {
                    "_nointro"@
                }),
            )
        } else {
            None
        },
        None => None,
    }
}

/// Builds [`cache_key`].
pub fn build_cache_key(
    imdb_id: Option<&str>,
    season: Option<u32>,
    episode: Option<u32>,
    subtitle_lang: Option<&str>,
    has_intro: bool,
) -> (r: Option<String>)
    ensures
        opt(r) == cache_key(
            crate::titles::opt_str(imdb_id),
            season,
            episode,
            crate::titles::opt_str(subtitle_lang),
            has_intro,
        ),
{
    let id = match imdb_id {
        Some(id) => id,
        None => {
            return None;
        },
    };
    if id.is_empty() {
        return None;
    }
    let mut key = id.to_owned();
    let ghost head = key@;
    let mut episode_part = String::new();
    if let Some(s) = season {
        if let Some(e) = episode {
            episode_part.append("_s");
            push_padded(&mut episode_part, s as u64, 2);
            episode_part.append("e");
            push_padded(&mut episode_part, e as u64, 2);
            assert(episode_part@ =~= "_s"@ + padded(s as nat, 2) + "e"@ + padded(e as nat, 2));
        }
    }
    key.append(episode_part.as_str());
    let mut language_part = String::new();
    match subtitle_lang {
        Some(l) => {
            language_part.append("_sub-");
            language_part.append(l);
            assert(language_part@ =~= "_sub-"@ + l@);
        },
        None => {
            language_part.append("_nosub");
            assert(language_part@ =~= "_nosub"@);
        },
    }
    key.append(language_part.as_str());
    if has_intro {
        key.append("_intro");
    } else {
        key.append("_nointro");
    }
    Some(key)
}

} // verus!
