use spela::state::{AppState, CurrentStream, HWM_CLEAR_PERCENT};
use spela::time::Timestamp;
use spela::titles::{extract_se_suffix, resume_position_key};

#[test]
fn test_save_position_smart_completion_threshold() {
    let mut state = AppState::default();
    let imdb_id = Some("tt10548174".to_string());
    let title = Some("28 Years Later".to_string());

    let (key, saved) =
        state.save_position_smart(imdb_id.clone(), title.clone(), 3000000, Some(6907000));
    assert!(saved);
    assert_eq!(state.resume_positions.get(&key), Some(&3000000));

    let (key2, saved2) =
        state.save_position_smart(imdb_id.clone(), title.clone(), 6600000, Some(6907000));
    assert!(saved2);
    assert_eq!(state.resume_positions.get(&key2), Some(&6600000));

    let (key3, saved3) =
        state.save_position_smart(imdb_id.clone(), title.clone(), 6708000, Some(6907000));
    assert!(saved3);
    assert_eq!(state.resume_positions.get(&key3), None);
}

#[test]
fn test_derive_watched_through() {
    let mut state = AppState::default();
    state.mark_watched(
        "tt14688458_s03e01",
        Some("tt14688458".into()),
        Some("Silo S03E01".into()),
    );
    state.mark_watched(
        "tt14688458_s03e03",
        Some("tt14688458".into()),
        Some("Silo S03E03".into()),
    );
    state.mark_watched(
        "tt14688458_s03e02",
        Some("tt14688458".into()),
        Some("Silo S03E02".into()),
    );
    state.mark_watched(
        "tt0000001_s09e09",
        Some("tt0000001".into()),
        Some("Rick and Morty S09E09".into()),
    );

    assert_eq!(
        state.derive_watched_through(Some("tt14688458"), "Silo"),
        Some((3, 3))
    );
    assert_eq!(state.derive_watched_through(None, "Silo"), Some((3, 3)));
    assert_eq!(
        state.derive_watched_through(Some("tt0000001"), "Rick and Morty"),
        Some((9, 9))
    );

    let mut seeded = AppState::default();
    assert!(seeded.mark_watched_seed(None, "Foundation S03E10".into()));
    assert_eq!(
        seeded.derive_watched_through(None, "Foundation"),
        Some((3, 10))
    );
    assert_eq!(seeded.derive_watched_through(None, "Severance"), None);
}

#[test]
fn test_hwm_clear_fraction_invariant() {
    assert!(HWM_CLEAR_PERCENT as f64 / 100.0 >= 0.96);
    assert!((HWM_CLEAR_PERCENT as f64 / 100.0) < 1.0);
}

#[test]
fn test_save_position_smart_completion_last_5_mins() {
    let mut state = AppState::default();
    let title = Some("Short Film".to_string());
    let duration = 600000;

    let (key, saved) = state.save_position_smart(None, title.clone(), 480000, Some(duration));
    assert!(saved);
    assert_eq!(state.resume_positions.get(&key), None);
}

#[test]
fn test_tv_episodes_do_not_collide_on_shared_imdb_id() {
    let mut state = AppState::default();
    let show_id = Some("tt1190634".to_string());

    let dur = 3753000;
    let (s02_key, _) = state.save_position_smart(
        show_id.clone(),
        Some("The Boys S05E02".to_string()),
        3437000,
        Some(dur),
    );

    let (s03_key, _) = state.save_position_smart(
        show_id.clone(),
        Some("The Boys S05E03".to_string()),
        120000,
        Some(3947000),
    );

    assert_ne!(s02_key, s03_key);
    assert!(
        s02_key.contains("s05e02"),
        "S02 key missing suffix: {s02_key}"
    );
    assert!(
        s03_key.contains("s05e03"),
        "S03 key missing suffix: {s03_key}"
    );

    let s02_pos = state.get_position(show_id.clone(), Some("The Boys S05E02".to_string()));
    let s03_pos = state.get_position(show_id.clone(), Some("The Boys S05E03".to_string()));
    assert_eq!(s02_pos, 3437000);
    assert_eq!(s03_pos, 120000);

    state.reset_position(show_id.clone(), Some("The Boys S05E02".to_string()));
    let s02_after = state.get_position(show_id.clone(), Some("The Boys S05E02".to_string()));
    let s03_after = state.get_position(show_id.clone(), Some("The Boys S05E03".to_string()));
    assert_eq!(s02_after, 0, "S02 should be cleared");
    assert_eq!(s03_after, 120000, "S03 must survive S02's reset");
}

#[test]
fn test_movies_use_raw_imdb_id_key() {
    let key = resume_position_key(Some("tt10548174"), Some("28 Years Later (2025)")).unwrap();
    assert_eq!(key, "tt10548174");

    let key_alt =
        resume_position_key(Some("tt10548174"), Some("28 Years Later — Extended")).unwrap();
    assert_eq!(key, key_alt);
}

#[test]
fn test_extract_se_suffix_variants() {
    assert_eq!(
        extract_se_suffix("The Boys S05E03 Every One of You Sons of Bitches"),
        Some("_s05e03".to_string())
    );
    assert_eq!(
        extract_se_suffix("The.Boys.S05E02.Teenage.Kix.1080p"),
        Some("_s05e02".to_string())
    );
    assert_eq!(
        extract_se_suffix("the.boys.s05e03.flux"),
        Some("_s05e03".to_string())
    );
    assert_eq!(
        extract_se_suffix("Lost S1E1 Pilot"),
        Some("_s01e01".to_string())
    );
    assert_eq!(
        extract_se_suffix("Show S1E12 Finale"),
        Some("_s01e12".to_string())
    );
    assert_eq!(
        extract_se_suffix("The Boys S05E03 Every One"),
        Some("_s05e03".to_string())
    );
    assert_eq!(extract_se_suffix("28 Years Later (2025)"), None);
    assert_eq!(extract_se_suffix("The Matrix 1999 1080p"), None);
    assert_eq!(extract_se_suffix(""), None);
    assert_eq!(
        extract_se_suffix("Dragons S05E01"),
        Some("_s05e01".to_string())
    );
    assert_eq!(extract_se_suffix("NoSeOrEHere"), None);
}

#[test]
fn test_absolute_position_translation() {
    let ss_offset = 1_800_000_i64;
    let chromecast_time = 845_000_i64;
    let absolute = spela::time::add_millis(chromecast_time, ss_offset);
    assert_eq!(absolute, 2_645_000);

    let duration = 3_823_600_i64;
    assert!(absolute * 100 < duration * HWM_CLEAR_PERCENT);
    assert!(!spela::state::is_near_end(absolute, Some(duration)));
    let near_end = 3_700_000_i64;
    assert!(near_end * 100 >= duration * HWM_CLEAR_PERCENT);
    assert!(spela::state::is_near_end(near_end, Some(duration)));
}

#[test]
fn test_has_seen_excludes_watched() {
    let mut app = AppState::default();
    app.mark_watched_auto(Some("tt1234567".into()), "Silo S03E04".into());
    app.mark_watched_auto(None, "Poor Things".into());

    assert!(app.has_seen(Some("tt1234567"), "Silo"));
    assert!(app.has_seen(None, "Poor Things"));
    assert!(app.has_seen(None, "poor things"));
    assert!(!app.has_seen(Some("tt9999999"), "Andor"));
    assert!(!app.has_seen(None, "Dune Part Two"));
}

#[test]
fn test_in_progress_written_and_cleared() {
    let mut app = AppState::default();
    app.current = Some(CurrentStream {
        magnet: "m".into(),
        title: "Dune Part Two".into(),
        show: None,
        season: None,
        episode: None,
        imdb_id: Some("tt15239678".into()),
        target: "vlc".into(),
        url: "u".into(),
        started_at: Timestamp { secs: 1_700_000_000, nanos: 0 },
        pid: 0,
        has_subtitles: false,
        subtitle_lang: None,
        duration: Some(9000000),
        quality: None,
        size: None,
        poster_url: Some("p".into()),
        ss_offset: 0,
        smooth: false,
        prepared_hls: false,
        cache_key: None,
    });
    app.save_position_smart(Some("tt15239678".into()), Some("Dune Part Two".into()), 1200000, Some(9000000));
    assert_eq!(app.in_progress_list().len(), 1);
    assert_eq!(app.in_progress_list()[0].position, 1200000);
    app.save_position_smart(Some("tt15239678".into()), Some("Dune Part Two".into()), 8900000, Some(9000000));
    assert!(app.in_progress_list().is_empty());
}
