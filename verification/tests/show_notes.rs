use spela::show_notes::{describe_status, ShowNote, ShowNotes};

#[test]
fn cancelled_beats_a_generic_ended() {
    assert_eq!(
        describe_status(Some("Canceled"), Some("Ended")).as_deref(),
        Some("Cancelled")
    );
}

#[test]
fn an_ending_is_believed_from_either_source() {
    assert_eq!(
        describe_status(Some("Returning Series"), Some("Ended")).as_deref(),
        Some("Ended")
    );
    assert_eq!(
        describe_status(Some("Ended"), Some("Running")).as_deref(),
        Some("Ended")
    );
}

#[test]
fn awaiting_renewal_is_its_own_state() {
    assert_eq!(
        describe_status(None, Some("To Be Determined")).as_deref(),
        Some("Renewal undecided")
    );
}

#[test]
fn running_shows_read_as_returning() {
    assert_eq!(
        describe_status(Some("Returning Series"), Some("Running")).as_deref(),
        Some("Returning")
    );
}

#[test]
fn nothing_known_yields_no_badge() {
    assert_eq!(describe_status(None, None), None);
    assert_eq!(describe_status(Some(""), Some("")), None);
}

#[test]
fn lookup_prefers_the_id_then_falls_back_to_title() {
    let mut n = ShowNotes::default();
    n.set(
        "tt1234567",
        ShowNote {
            note: "by id".into(),
            ..Default::default()
        },
    );
    n.set(
        "The Show",
        ShowNote {
            note: "by title".into(),
            ..Default::default()
        },
    );
    assert_eq!(n.get(Some("tt1234567"), "Whatever").unwrap().note, "by id");
    assert_eq!(n.get(None, "the show").unwrap().note, "by title");
    assert_eq!(
        n.get(Some("tt0000000"), "The Show").unwrap().note,
        "by title"
    );
}

#[test]
fn an_empty_note_clears_rather_than_stores_a_blank() {
    let mut n = ShowNotes::default();
    n.set(
        "tt1",
        ShowNote {
            note: "x".into(),
            ..Default::default()
        },
    );
    n.set(
        "tt1",
        ShowNote {
            note: "  ".into(),
            ..Default::default()
        },
    );
    assert!(n.get(Some("tt1"), "").is_none());
}
