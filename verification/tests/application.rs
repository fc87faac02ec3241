//! The application's state and what user actions do to it.
use furumi::api::{
    BackendCommand, BackendSnapshot, PlaybackRepeat, PlaybackStatus, RequestId, SearchResults,
    SearchSnapshot, SendCommandError,
};
use furumi::application::{
    duration_label, reduce_action, reduce_event, AppEvent, AppState, Effect, Locale, Screen,
    UiAction,
};
use furumi::catalog::{
    Artist, ArtistId, ArtistKey, ArtistRef, Artwork, CatalogSource, Release, ReleaseId, ReleaseKey,
};

#[test]
fn a_new_search_cancels_the_active_request() {
    let mut state = AppState::default();
    state.backend.search = SearchSnapshot {
        request_id: Some(RequestId::new(9)),
        federation_pending: true,
        ..SearchSnapshot::default()
    };

    let effects = reduce_action(&mut state, UiAction::SearchChanged("ambient".into()));
    assert_eq!(effects.len(), 2);
    assert_eq!(
        effects[0],
        Effect::Send(BackendCommand::CancelSearch {
            request_id: RequestId::new(9)
        })
    );
    assert!(matches!(
        effects[1],
        Effect::Send(BackendCommand::Search { .. })
    ));
}

#[test]
fn stale_backend_snapshots_are_ignored() {
    let mut state = AppState::default();
    state.backend.revision = 8;
    reduce_event(
        &mut state,
        AppEvent::BackendSnapshot(Box::new(BackendSnapshot {
            revision: 7,
            ..BackendSnapshot::default()
        })),
    );
    assert_eq!(state.backend.revision, 8);
}

#[test]
fn newer_backend_snapshots_are_taken() {
    let mut state = AppState::default();
    state.backend.revision = 8;
    reduce_event(
        &mut state,
        AppEvent::BackendSnapshot(Box::new(BackendSnapshot {
            revision: 9,
            ..BackendSnapshot::default()
        })),
    );
    assert_eq!(state.backend.revision, 9);
}

#[test]
fn detail_navigation_returns_to_the_previous_screen() {
    let mut state = AppState::default();
    let artist = ArtistKey::Federation {
        peer_id: "peer-a".into(),
        id: "artist-a".into(),
    };

    reduce_action(&mut state, UiAction::Navigate(Screen::Artist(artist)));
    reduce_action(&mut state, UiAction::Back);

    assert_eq!(state.frontend.screen, Screen::Home);
    assert!(state.frontend.navigation_history.is_empty());
}

#[test]
fn forward_navigation_restores_the_screen_left_by_back() {
    let mut state = AppState::default();
    let artist = ArtistKey::Federation {
        peer_id: "peer-a".into(),
        id: "artist-a".into(),
    };
    let artist_screen = Screen::Artist(artist);

    reduce_action(&mut state, UiAction::Navigate(artist_screen.clone()));
    reduce_action(&mut state, UiAction::Back);
    reduce_action(&mut state, UiAction::Forward);

    assert_eq!(state.frontend.screen, artist_screen);
    assert!(state.frontend.navigation_forward.is_empty());
    assert_eq!(state.frontend.navigation_history, vec![Screen::Home]);
}

#[test]
fn release_lookup_keeps_the_preferred_artist_name_and_key_together() {
    let mut state = AppState::default();
    let pasha_key = ArtistKey::Local(ArtistId::new(1));
    let kunteynir_key = ArtistKey::Local(ArtistId::new(2));
    let release_key = ReleaseKey::Local(ReleaseId::new(7));
    let artists = [
        (kunteynir_key.clone(), "KUNTEYNIR"),
        (pasha_key.clone(), "Паша Техник"),
    ];
    state.backend.search.results = SearchResults {
        artists: artists
            .iter()
            .map(|(key, name)| Artist {
                key: key.clone(),
                source: CatalogSource::Local,
                name: (*name).into(),
                artwork: Artwork::default(),
                release_count: 1,
                track_count: 1,
            })
            .collect(),
        releases: vec![Release {
            key: release_key.clone(),
            source: CatalogSource::Local,
            title: "Порядочный".into(),
            artists: artists
                .iter()
                .map(|(key, name)| ArtistRef {
                    key: key.clone(),
                    name: (*name).into(),
                })
                .collect(),
            featured_artists: Vec::new(),
            release_type: "album".into(),
            year: None,
            artwork: Artwork::default(),
            tracks: Vec::new(),
        }],
        tracks: Vec::new(),
    };

    let effects = reduce_action(
        &mut state,
        UiAction::Navigate(Screen::Release(release_key, Some(pasha_key.clone()))),
    );

    assert_eq!(
        effects,
        vec![Effect::Send(BackendCommand::LoadRelease {
            request_id: RequestId::new(1),
            key: ReleaseKey::Local(ReleaseId::new(7)),
            artist_key: pasha_key,
            artist_name: "Паша Техник".into(),
        })]
    );
}

#[test]
fn navigating_to_the_screen_at_hand_changes_nothing() {
    let mut state = AppState::default();
    assert!(reduce_action(&mut state, UiAction::Navigate(Screen::Home)).is_empty());
    assert!(state.frontend.navigation_history.is_empty());
    assert!(reduce_action(&mut state, UiAction::Back).is_empty());
    assert!(reduce_action(&mut state, UiAction::Forward).is_empty());
    assert_eq!(state.frontend.screen, Screen::Home);
}

#[test]
fn durations_are_minutes_and_seconds() {
    assert_eq!(duration_label(0), "0:00");
    assert_eq!(duration_label(59_999_999_999), "0:59");
    assert_eq!(duration_label(61_000_000_000), "1:01");
    assert_eq!(duration_label(3_600_000_000_000), "60:00");
}

#[test]
fn the_player_shows_its_progress() {
    let mut state = AppState::default();
    state.backend.playback.status = PlaybackStatus::Playing;
    state.backend.playback.position_nanos = 45_000_000_000;
    state.backend.playback.duration_nanos = 180_000_000_000;
    state.backend.playback.repeat = PlaybackRepeat::One;
    let player = state.player_projection();
    assert_eq!(player.progress_ppb, 250_000_000);
    assert_eq!(player.elapsed, "0:45");
    assert_eq!(player.duration, "3:00");
    assert_eq!(player.repeat, PlaybackRepeat::One);
    assert!(player.playing);
}

#[test]
fn repeating_goes_round() {
    assert_eq!(PlaybackRepeat::Off.next().next().next(), PlaybackRepeat::Off);
    assert_ne!(PlaybackRepeat::Off.next(), PlaybackRepeat::Off);
}

#[test]
fn rejected_commands_are_shown_until_dismissed() {
    let mut state = AppState::default();
    reduce_event(
        &mut state,
        AppEvent::CommandRejected(SendCommandError::Busy.message().to_string()),
    );
    assert_eq!(
        state.transient_error.as_deref(),
        Some(SendCommandError::Busy.message())
    );
    reduce_action(&mut state, UiAction::DismissError);
    assert!(state.transient_error.is_none());
    assert_ne!(
        SendCommandError::Busy.message(),
        SendCommandError::Closed.message()
    );
}

#[test]
fn the_program_speaks_english() {
    let words = Locale::En.strings();
    assert_eq!(words.app_name, "Furumi");
    assert_eq!(words.search_placeholder, "Artists, albums or tracks");
}
