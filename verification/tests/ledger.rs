use spela::collections::{StringMap, StringSet};
use spela::requests::history_shown;
use spela::state::{AppState, CurrentStream, DISMISSED_CAP, HISTORY_CAP, PENDING_CAP, WATCHED_CAP};
use spela::time::Timestamp;

fn text(s: &str) -> Option<String> {
    Some(s.to_string())
}

fn at(secs: i64) -> Timestamp {
    Timestamp { secs, nanos: 0 }
}

fn stream(title: &str) -> CurrentStream {
    CurrentStream {
        magnet: "magnet:?xt=urn:btih:1".to_string(),
        title: title.to_string(),
        show: None,
        season: None,
        episode: None,
        imdb_id: None,
        target: "chromecast:TV".to_string(),
        url: "http://h/hls/master.m3u8".to_string(),
        started_at: at(0),
        pid: 1,
        has_subtitles: false,
        subtitle_lang: None,
        duration: None,
        quality: None,
        size: None,
        poster_url: None,
        ss_offset: 0,
        smooth: false,
        prepared_hls: false,
        cache_key: None,
    }
}

#[test]
fn a_completion_is_entered_once_and_in_front() {
    let mut s = AppState::default();
    s.mark_watched_at("tt1", text("tt1"), text("The Film"), at(1));
    s.mark_watched_at("tt2", text("tt2"), text("Another"), at(2));
    s.mark_watched_at("tt1", text("tt1"), text("The Film"), at(3));
    let keys: Vec<&str> = s.watched.iter().map(|e| e.key.as_str()).collect();
    assert_eq!(keys, vec!["tt1", "tt2"]);
    assert_eq!(s.watched[0].watched_at, at(3));
    for i in 0..WATCHED_CAP + 5 {
        s.mark_watched_at(&format!("k{i}"), None, text("x"), at(4));
    }
    assert_eq!(s.watched.len(), WATCHED_CAP);
}

#[test]
fn a_completion_carries_the_time_of_day() {
    let mut s = AppState::default();
    s.mark_watched("tt1", text("tt1"), text("The Film"));
    assert!(s.watched[0].watched_at.secs > 1_600_000_000);
    assert!(s.watched[0].watched_at.nanos < 2_000_000_000);
}

#[test]
fn what_was_watched_has_been_seen_in_any_case() {
    let mut s = AppState::default();
    assert!(!s.has_seen(None, "The Film"));
    s.mark_watched_at("the-film", text("tt1"), text("The Film"), at(1));
    assert!(s.has_seen(None, "the film"));
    assert!(s.has_seen(None, "THE FILM"));
    assert!(s.has_seen(Some("tt1"), "something else"));
    assert!(!s.has_seen(Some("tt2"), "something else"));
}

#[test]
fn positions_only_rise_until_the_end() {
    let mut s = AppState::default();
    let hour = Some(3_600_000);
    assert_eq!(s.save_position_at(text("tt1"), None, 600_000, hour, at(1)), ("tt1".into(), true));
    assert_eq!(s.save_position_at(text("tt1"), None, 300_000, hour, at(2)), ("tt1".into(), false));
    assert_eq!(s.save_position_at(text("tt2"), None, 60_000, hour, at(3)), ("tt2".into(), true));
    assert_eq!(s.get_position(text("tt1"), None), 600_000);
    assert_eq!(s.in_progress_list().len(), 2);
    assert!(s.save_position_at(text("tt1"), text("The Film"), 3_500_000, hour, at(4)).1);
    assert_eq!(s.get_position(text("tt1"), None), 0);
    assert_eq!(s.get_position(text("tt2"), None), 60_000);
    assert!(s.has_seen(Some("tt1"), ""));
    assert_eq!(s.in_progress_list().len(), 1);
    let nameless = s.save_position_at(None, None, 1_000_000, None, at(5));
    assert_eq!(nameless, ("unknown".into(), false));
}

#[test]
fn forgetting_touches_one_title() {
    let mut s = AppState::default();
    s.save_position_at(text("tt1"), None, 600_000, None, at(1));
    s.save_position_at(text("tt1"), text("Show S01E02"), 700_000, None, at(1));
    assert_eq!(s.reset_position(text("tt1"), text("Show S01E02")), "tt1_s01e02");
    assert_eq!(s.get_position(text("tt1"), text("Show S01E02")), 0);
    assert_eq!(s.get_position(text("tt1"), None), 600_000);
    assert_eq!(s.in_progress_list()[0].position, 600_000);
}

#[test]
fn a_detection_is_staged_once_and_an_answer_is_final() {
    let mut s = AppState::default();
    let stage = |s: &mut AppState, t: &str| {
        s.stage_pending_watch_at(t.to_string(), None, None, None, "phone".to_string(), at(1))
    };
    assert!(stage(&mut s, "The Film"));
    assert!(!stage(&mut s, "The Film"));
    assert!(stage(&mut s, "Another"));
    assert_eq!(s.pending_watched[0].title, "Another");
    assert!(s.resolve_pending("the-film", false));
    assert!(!s.resolve_pending("the-film", false));
    assert!(!stage(&mut s, "The Film"));
    assert!(s.resolve_pending_at("another", true, at(2)));
    assert!(s.has_seen(None, "Another"));
    assert!(!stage(&mut s, "Another"));
    assert!(s.pending_watched.is_empty());
    for i in 0..PENDING_CAP + 3 {
        assert!(stage(&mut s, &format!("film {i}")));
    }
    assert_eq!(s.pending_watched.len(), PENDING_CAP);
}

#[test]
fn only_so_many_dismissals_are_remembered() {
    let mut s = AppState::default();
    for i in 0..DISMISSED_CAP + 2 {
        s.stage_pending_watch(format!("film {i}"), None, None, None, "phone".to_string());
        assert!(s.resolve_pending(&format!("film-{i}"), false));
    }
    assert_eq!(s.dismissed_watched.len(), DISMISSED_CAP);
    assert!(!s.dismissed_watched.contains("film-0"));
    assert!(s.dismissed_watched.contains(&format!("film-{}", DISMISSED_CAP + 1)));
}

#[test]
fn a_baseline_mark_never_overwrites_a_completion() {
    let mut s = AppState::default();
    s.mark_watched_at("tt1_s01e02", text("tt1"), text("Show S01E02"), at(1));
    assert!(!s.mark_watched_seed_at(text("tt1"), "Show S01E02".to_string(), at(2)));
    assert!(!s.watched[0].seed);
    assert!(s.mark_watched_seed(text("tt1"), "Show S01E03".to_string()));
    assert!(s.watched.iter().any(|e| e.seed && e.key == "tt1_s01e03"));
}

#[test]
fn progress_is_the_furthest_episode_in_any_order() {
    let mut s = AppState::default();
    assert!(s.mark_watched_auto_at(text("tt1"), "Show S02E01".to_string(), at(1)));
    assert!(s.mark_watched_auto_at(text("tt1"), "Show S01E09".to_string(), at(2)));
    assert!(s.mark_watched_auto(text("tt1"), "Show S01E10".to_string()));
    assert_eq!(s.derive_watched_through(Some("tt1"), "Show"), Some((2, 1)));
    s.watched.reverse();
    assert_eq!(s.derive_watched_through(Some("tt1"), "Show"), Some((2, 1)));
    assert_eq!(s.derive_watched_through(Some("tt2"), "Other"), None);
}

#[test]
fn the_history_begins_with_what_was_stopped_last() {
    let mut s = AppState::default();
    s.stop_current_at(at(1));
    assert!(s.history.is_empty());
    assert_eq!(history_shown(&s), 0);
    for i in 0..HISTORY_CAP + 2 {
        s.current = Some(stream(&format!("film {i}")));
        s.stop_current_at(at(i as i64));
        assert!(s.current.is_none());
        assert_eq!(history_shown(&s), (i + 1).min(20));
    }
    assert_eq!(s.history.len(), HISTORY_CAP);
    assert_eq!(history_shown(&s), 20);
    assert_eq!(s.history[0].title, format!("film {}", HISTORY_CAP + 1));
    assert_eq!(s.history[0].watched_at, at(HISTORY_CAP as i64 + 1));
    assert_eq!(s.history[0].target.as_deref(), Some("chromecast:TV"));
    s.current = Some(stream("last"));
    s.stop_current();
    assert!(s.history[0].watched_at.secs > 1_600_000_000);
}

#[test]
fn maps_and_sets_of_texts() {
    let mut m: StringMap<u64> = StringMap::new();
    m.insert("a".to_string(), 1);
    m.insert("b".to_string(), 2);
    m.insert("a".to_string(), 3);
    assert_eq!((m.len(), m.get("a"), m.get("c")), (2, Some(&3), None));
    m.remove("a");
    assert!(!m.contains_key("a") && m.contains_key("b"));
    let mut s = StringSet::new();
    s.insert("x".to_string());
    s.insert("y".to_string());
    s.insert("x".to_string());
    assert_eq!(s.len(), 2);
    s.insert("z".to_string());
    s.drop_oldest_but("x");
    assert!(s.contains("x") && !s.contains("y") && s.contains("z"));
    s.drop_oldest_but("z");
    assert!(!s.contains("x") && s.contains("z"));
    assert_eq!(s.item(0), "z");
}
