use lyricsync::session::{
    normalize_artist, search_query, Action, Event, MessageBuilder, Phase, PlayerError, Tracker,
    METADATA_RETRY_MS, NO_PLAYER_BACKOFF_MS,
};

fn tracker_on(artist: &str, title: &str) -> Tracker {
    let mut t = Tracker::new();
    assert!(matches!(t.step(Event::PlayerStatus { active: true }), Action::Idle));
    let a = t.step(Event::Track { artist: artist.to_string(), title: title.to_string() });
    assert!(matches!(a, Action::Idle));
    t
}

fn reported(a: &Action) -> Option<PlayerError> {
    match a {
        Action::Send { message, .. } => message.error_message,
        _ => None,
    }
}

#[test]
fn topic_artist_query_falls_back_to_title() {
    let mut t = tracker_on("Artist - Topic", "Song");
    assert_eq!(t.phase, Phase::Searching);
    assert_eq!(t.query, "Artist Song");
    assert!(matches!(t.step(Event::NothingFound), Action::Idle));
    assert_eq!(t.phase, Phase::SearchingTitle);
    assert_eq!(t.query, "Song");
    let a = t.step(Event::NothingFound);
    assert_eq!(reported(&a), Some(PlayerError::NoLyrics));
    assert_eq!(t.phase, Phase::Finished);
}

#[test]
fn track_change_restarts_resolution() {
    let mut t = tracker_on("Band", "Song A");
    let a = t.step(Event::Found { synced_lyrics: Some("[00:00.00] la\n[00:01.00]".to_string()) });
    match a {
        Action::Send { message, wait_ms } => {
            assert_eq!(message.interval, vec![(0, 1_000_000, "la".to_string())]);
            assert_eq!(message.error_message, None);
            assert_eq!(wait_ms, 0);
        }
        _ => panic!("expected the table to be sent"),
    }
    assert_eq!(t.phase, Phase::Sampling);
    let a = t.step(Event::Sample { title: "Song A".to_string(), position_us: 500 });
    assert!(matches!(a, Action::Highlight { index: 0 }));
    let a = t.step(Event::Sample { title: "Song B".to_string(), position_us: 500 });
    assert!(matches!(a, Action::Idle));
    assert_eq!(t.phase, Phase::AwaitingPlayer);
    assert!(t.table.is_empty());
    assert!(matches!(t.step(Event::PlayerStatus { active: true }), Action::Idle));
    t.step(Event::Track { artist: "Band".to_string(), title: "Song B".to_string() });
    assert_eq!(t.phase, Phase::Searching);
    assert_eq!(t.title, "Song B");
    assert_eq!(t.query, "Band Song B");
}

#[test]
fn sampling_in_a_gap_highlights_nothing() {
    let mut t = tracker_on("Band", "Song");
    t.step(Event::Found {
        synced_lyrics: Some("[00:01.00] a\n[00:02.00] b\n[00:03.00]".to_string()),
    });
    assert!(matches!(t.step(Event::Sample { title: "Song".to_string(), position_us: 10 }), Action::Idle));
    assert!(matches!(
        t.step(Event::Sample { title: "Song".to_string(), position_us: 2_000_000 }),
        Action::Highlight { index: 1 }
    ));
    assert_eq!(t.phase, Phase::Sampling);
}

#[test]
fn no_player_is_reported_with_backoff() {
    let mut t = Tracker::new();
    let a = t.step(Event::PlayerStatus { active: false });
    match a {
        Action::Send { message, wait_ms } => {
            assert_eq!(message.error_message, Some(PlayerError::NoPlayer));
            assert!(message.interval.is_empty());
            assert_eq!(wait_ms, NO_PLAYER_BACKOFF_MS);
        }
        _ => panic!("expected a report"),
    }
    assert_eq!(t.phase, Phase::AwaitingPlayer);
}

#[test]
fn missing_track_waits_and_asks_again() {
    let mut t = Tracker::new();
    t.step(Event::PlayerStatus { active: true });
    let a = t.step(Event::NoTrack);
    assert!(matches!(a, Action::Wait { millis } if millis == METADATA_RETRY_MS));
    assert_eq!(t.phase, Phase::AwaitingPlayer);
}

#[test]
fn result_without_synced_lyrics_reports_no_lyrics() {
    let mut t = tracker_on("Band", "Song");
    let a = t.step(Event::Found { synced_lyrics: None });
    assert_eq!(reported(&a), Some(PlayerError::NoLyrics));
    assert_eq!(t.phase, Phase::Finished);
    let mut t = tracker_on("Band", "Song");
    let a = t.step(Event::Found { synced_lyrics: Some(String::new()) });
    assert_eq!(reported(&a), Some(PlayerError::NoLyrics));
    assert!(matches!(t.step(Event::PlayerStatus { active: true }), Action::Idle));
    assert_eq!(t.phase, Phase::Finished);
}

#[test]
fn unexpected_event_changes_nothing() {
    let mut t = Tracker::new();
    assert!(matches!(t.step(Event::NothingFound), Action::Idle));
    assert_eq!(t.phase, Phase::AwaitingPlayer);
}

#[test]
fn artist_marker_is_removed() {
    assert_eq!(normalize_artist("Artist - Topic"), "Artist");
    assert_eq!(normalize_artist("Plain Artist"), "Plain Artist");
    assert_eq!(normalize_artist("A - Topic - Topic B"), "A B");
    assert_eq!(normalize_artist(""), "");
    assert_eq!(search_query("Artist", "Song"), "Artist Song");
}

#[test]
fn message_builder_copies_the_table() {
    let empty = MessageBuilder::builder();
    assert!(empty.interval.is_empty());
    assert_eq!(empty.error_message, None);
    let mut lines = vec![(0, 10, "x".to_string()), (10, 20, "y".to_string())];
    let m = MessageBuilder::builder().interval(&mut lines);
    assert_eq!(m.interval, lines);
    let f = MessageBuilder::failure(PlayerError::NoLyrics);
    assert_eq!(f.error_message, Some(PlayerError::NoLyrics));
    assert_eq!(PlayerError::NoPlayer.message(), "No players found.");
    assert_eq!(PlayerError::NoLyrics.message(), "Couldn't find lyrics for this song.");
}
