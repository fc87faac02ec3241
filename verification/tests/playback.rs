//! The player: the engine that sounds and the actor that decides.
use furumi::actor::{
    Action, Actor, LibraryPurpose, Moment, Status, Surroundings,
};
use furumi::actor_devices::normalize_device_name;
use furumi::actor_dispatch::InternalEvent;
use furumi::actor_playback::Event;
use furumi::actor_start::{configured_device_name, initialize_actor};

use furumi::api::{
    BackendCommand, BuildInfoSnapshot, DevicePlaybackRole, LibrarySnapshot, PlaybackRepeat,
    PlaybackStatus, RemoteData, RequestId, SearchResults, SearchStats, SettingsSnapshot,
    SimilarityStatusSnapshot,
};
use furumi::catalog::{
    ArtistId, ArtistKey, ArtistRef, Artwork, AudioSource, CatalogSource, LocalTrackId, Release,
    ReleaseId, ReleaseKey, Track, TrackKey,
};
use furumi::engine::{amplitude, Engine, EngineAction, EngineCommand, EngineReport};

#[test]
fn perceptual_volume_is_clamped_and_cubic() {
    assert_eq!(amplitude(-1_000_000_000), 0);
    assert_eq!(amplitude(500_000_000), 125_000_000);
    assert_eq!(amplitude(2_000_000_000), 1_000_000_000);
}

#[test]
fn the_engine_opens_its_device_once() {
    let mut engine = Engine::new();
    let play = || EngineCommand::Play { path: "a.flac".into(), volume_ppb: 500_000_000 };
    assert_eq!(engine.handle(EngineCommand::Pause), vec![]);
    assert_eq!(engine.handle(play()), vec![EngineAction::OpenOutput]);
    assert_eq!(
        engine.report(EngineReport::OutputOpened),
        vec![EngineAction::LoadFile { path: "a.flac".into() }]
    );
    assert_eq!(
        engine.report(EngineReport::Decoded),
        vec![EngineAction::Start { amplitude_ppb: 125_000_000 }, EngineAction::TellStarted]
    );
    engine.settle(1);
    assert_eq!(
        engine.handle(play()),
        vec![EngineAction::LoadFile { path: "a.flac".into() }]
    );
}

#[test]
fn the_engine_tells_the_end_of_a_track_once() {
    let mut engine = Engine::new();
    engine.handle(EngineCommand::PlayStream { mime_type: "audio/ogg".into(), volume_ppb: 0 });
    engine.report(EngineReport::OutputOpened);
    engine.report(EngineReport::Decoded);
    engine.settle(1);
    assert_eq!(engine.poll(1, 400), vec![]);
    assert_eq!(engine.position_ms, 400);
    assert_eq!(engine.poll(0, 500), vec![EngineAction::TellFinished]);
    assert_eq!(engine.poll(0, 500), vec![]);

    engine.report(EngineReport::Decoded);
    engine.settle(1);
    engine.handle(EngineCommand::Stop);
    assert_eq!(engine.position_ms, 0);
    assert_eq!(engine.poll(0, 0), vec![]);
}

#[test]
fn the_engine_says_what_failed() {
    let mut engine = Engine::new();
    let failed = |message: &str| vec![EngineAction::TellFailed { message: message.into() }];
    engine.handle(EngineCommand::Play { path: "a.flac".into(), volume_ppb: 0 });
    assert_eq!(
        engine.report(EngineReport::OutputFailed { error: "busy".into() }),
        failed("cannot open audio output: busy")
    );
    engine.handle(EngineCommand::Play { path: "a.flac".into(), volume_ppb: 0 });
    engine.report(EngineReport::OutputOpened);
    assert_eq!(
        engine.report(EngineReport::Unreadable { error: "gone".into() }),
        failed("cannot open a.flac: gone")
    );
    engine.handle(EngineCommand::Play { path: "a.flac".into(), volume_ppb: 0 });
    assert_eq!(
        engine.report(EngineReport::Undecodable { error: "noise".into() }),
        failed("cannot decode a.flac: noise")
    );
    engine.handle(EngineCommand::PlayStream { mime_type: "audio/ogg".into(), volume_ppb: 0 });
    assert_eq!(
        engine.report(EngineReport::Undecodable { error: "noise".into() }),
        failed("cannot decode federated stream: noise")
    );
    assert_eq!(
        engine.report(EngineReport::SeekFailed { error: "far".into() }),
        failed("cannot seek: far")
    );
    assert_eq!(
        engine.handle(EngineCommand::SetVolume { volume_ppb: 1_000_000_000 }),
        vec![EngineAction::SetAmplitude { amplitude_ppb: 1_000_000_000 }]
    );
    assert_eq!(
        engine.handle(EngineCommand::Seek { position_nanos: 7 }),
        vec![EngineAction::Seek { position_nanos: 7 }]
    );
}

fn names(name: &str) -> String {
    name.trim().to_lowercase()
}

fn track(id: i64) -> Track {
    Track {
        key: TrackKey::local(LocalTrackId::new(id)),
        title: format!("Track {id}"),
        artist: "Artist".into(),
        artists: vec![ArtistRef {
            key: ArtistKey::local(ArtistId::new(1)),
            name: "Artist".into(),
        }],
        featured_artists: Vec::new(),
        release: "Album".into(),
        release_id: ReleaseKey::local(ReleaseId::new(1)),
        duration_nanos: 180_000_000_000,
        track_number: Some(1),
        disc_number: Some(1),
        cover_uri: None,
        audio_format: None,
        audio_bitrate_kbps: None,
        audio_sample_rate_hz: None,
        audio_bit_depth: None,
        file_size_bytes: None,
        liked: false,
        audio_source: AudioSource::LocalFile(format!("{id}.flac")),
    }
}

fn library() -> LibrarySnapshot {
    LibrarySnapshot {
        featured_releases: vec![Release {
            key: ReleaseKey::local(ReleaseId::new(1)),
            source: CatalogSource::Local,
            title: "Album".into(),
            artists: track(1).artists,
            featured_artists: Vec::new(),
            release_type: "album".into(),
            year: None,
            artwork: Artwork::default(),
            tracks: vec![track(1), track(2), track(3)],
        }],
        ..LibrarySnapshot::default()
    }
}

fn status() -> Status {
    Status {
        this_device_id: "dev_own".into(),
        this_device_name: "Own".into(),
        group_id: "grp".into(),
        devices: Vec::new(),
        pending: Vec::new(),
        last_sync: None,
        error: None,
    }
}

fn around(nanos: u64) -> Surroundings {
    Surroundings {
        now: Moment { nanos, unix_ms: 1_700_000_000_000 },
        listen_id: "listen".into(),
        seed: 7,
        devices: status(),
    }
}

fn actor() -> Actor {
    actor_with(SettingsSnapshot { device_name: "Own".into(), ..SettingsSnapshot::default() })
}

fn actor_with(settings: SettingsSnapshot) -> Actor {
    initialize_actor(
        settings,
        library(),
        BuildInfoSnapshot::default(),
        SimilarityStatusSnapshot::default(),
        "dev_own".into(),
        "Own".into(),
        None,
        &status(),
    )
}

fn play(actor: &mut Actor, index: usize) {
    actor.handle_command(
        BackendCommand::PlayRelease {
            release_id: ReleaseKey::local(ReleaseId::new(1)),
            start: index,
        },
        &around(1),
        &names,
    );
}

#[test]
fn a_release_plays_from_the_chosen_track() {
    let mut actor = actor();
    play(&mut actor, 1);
    let actions = actor.take_actions();
    assert!(actions.iter().any(
        |action| matches!(action, Action::AudioPlay { path, .. } if path == "2.flac")
    ));
    assert_eq!(actor.queue().current_index(), Some(1));
    actor.handle_internal(InternalEvent::Audio(Event::Started), &around(2), &names);
    assert_eq!(actor.playback().status, PlaybackStatus::Playing);
}

#[test]
fn a_finished_track_gives_way_to_the_next() {
    let mut actor = actor();
    play(&mut actor, 1);
    actor.handle_internal(InternalEvent::Audio(Event::Started), &around(2), &names);
    actor.take_actions();
    actor.handle_internal(InternalEvent::Audio(Event::Finished), &around(3), &names);
    assert_eq!(actor.queue().current_index(), Some(2));
    actor.handle_internal(InternalEvent::Audio(Event::Finished), &around(4), &names);
    assert_eq!(actor.playback().status, PlaybackStatus::Stopped);
}

#[test]
fn repeating_all_starts_over() {
    let mut actor = actor();
    play(&mut actor, 2);
    while actor.playback().repeat != PlaybackRepeat::All {
        actor.handle_command(BackendCommand::CycleRepeat, &around(2), &names);
    }
    actor.handle_internal(InternalEvent::Audio(Event::Finished), &around(3), &names);
    assert_eq!(actor.queue().current_index(), Some(0));
}

#[test]
fn removing_the_playing_item_plays_the_next_or_nothing() {
    let mut actor = actor();
    play(&mut actor, 1);
    actor.take_actions();
    let playing = actor.queue().items()[1].id;
    actor.handle_command(BackendCommand::RemoveQueueItem { item_id: playing }, &around(2), &names);
    assert!(actor.take_actions().iter().any(
        |action| matches!(action, Action::AudioPlay { path, .. } if path == "3.flac")
    ));
    while let Some(item) = actor.queue().items().first() {
        let item_id = item.id;
        actor.handle_command(BackendCommand::RemoveQueueItem { item_id }, &around(3), &names);
    }
    assert_eq!(actor.playback().status, PlaybackStatus::Stopped);
    assert_eq!(actor.playback().duration_nanos, 0);
    assert!(actor.take_actions().iter().any(|action| matches!(action, Action::AudioStop)));
}

#[test]
fn moving_an_item_keeps_playing() {
    let mut actor = actor();
    play(&mut actor, 0);
    actor.take_actions();
    let item_id = actor.queue().items()[0].id;
    actor.handle_command(
        BackendCommand::MoveQueueItem { item_id, target_index: 2 },
        &around(2),
        &names,
    );
    assert_eq!(actor.queue().current_index(), Some(2));
    let actions = actor.take_actions();
    assert!(actions.iter().all(|action| !matches!(action, Action::AudioPlay { .. })));
    assert!(actions.iter().any(|action| matches!(action, Action::Publish { .. })));
}

#[test]
fn a_failure_is_shown() {
    let mut actor = actor();
    play(&mut actor, 0);
    actor.handle_internal(
        InternalEvent::Audio(Event::Failed("cannot decode".into())),
        &around(3),
        &names,
    );
    assert!(actor.snapshot().playback_error.as_deref().unwrap().contains("cannot decode"));
}

#[test]
fn a_failed_fetch_stops_only_the_track_it_was_for() {
    let mut actor = actor();
    play(&mut actor, 0);
    actor.handle_internal(InternalEvent::Audio(Event::Started), &around(2), &names);
    let failed = |id: i64| InternalEvent::FederatedContentResolved {
        key: TrackKey::local(LocalTrackId::new(id)),
        result: Err("no peer has it".into()),
    };
    actor.take_actions();
    actor.handle_internal(failed(3), &around(3), &names);
    assert_eq!(actor.playback().status, PlaybackStatus::Playing);
    assert_eq!(actor.snapshot().playback_error, None);
    assert!(actor.take_actions().is_empty());
    actor.handle_internal(failed(1), &around(4), &names);
    assert_eq!(actor.playback().status, PlaybackStatus::Stopped);
    assert!(actor.snapshot().playback_error.as_deref().unwrap().contains("no peer has it"));
}

#[test]
fn results_of_an_abandoned_search_are_dropped() {
    let mut actor = actor();
    let search = |id: u64| BackendCommand::Search {
        request_id: RequestId::new(id),
        query: "ambient".into(),
    };
    actor.handle_command(search(1), &around(1), &names);
    actor.handle_command(search(2), &around(2), &names);
    let stale = SearchResults { tracks: vec![track(9)], ..SearchResults::default() };
    actor.handle_internal(
        InternalEvent::SearchFinished {
            request_id: RequestId::new(1),
            results: Ok((
                stale,
                SearchStats { tracks: 1, artists: 0, peers_queried: 1, duration_ms: 1 },
            )),
        },
        &around(3),
        &names,
    );
    assert!(actor.results().tracks.is_empty());
    assert_eq!(actor.active_search(), Some(RequestId::new(2)));
    actor.handle_command(
        BackendCommand::CancelSearch { request_id: RequestId::new(2) },
        &around(4),
        &names,
    );
    assert_eq!(actor.active_search(), None);
}

#[test]
fn a_search_is_done_with_the_library_while_the_network_is_not_joined() {
    let mut actor = actor();
    let found = |id: u64, tracks: Vec<Track>| InternalEvent::LocalSearchFinished {
        request_id: RequestId::new(id),
        query: "ambient".into(),
        results: SearchResults { tracks, ..SearchResults::default() },
    };
    actor.handle_command(
        BackendCommand::Search { request_id: RequestId::new(5), query: "ambient".into() },
        &around(1),
        &names,
    );
    actor.handle_internal(found(4, vec![track(9)]), &around(2), &names);
    assert!(actor.results().tracks.is_empty());
    actor.handle_internal(found(5, vec![track(1), track(2)]), &around(3), &names);
    let search = &actor.snapshot().search;
    assert_eq!(search.request_id, Some(RequestId::new(5)));
    assert_eq!(search.results.tracks.len(), 2);
    assert!(!search.federation_pending);
    assert_eq!(search.stats.map(|stats| stats.tracks), Some(2));
    assert_eq!(search.error, None);
    assert_eq!(actor.active_search(), None);
}

#[test]
fn an_artist_cannot_be_asked_for_while_the_network_is_not_joined() {
    let mut actor = actor_with(SettingsSnapshot {
        device_name: "Own".into(),
        federation_enabled: true,
        ..SettingsSnapshot::default()
    });
    actor.handle_command(
        BackendCommand::LoadArtist {
            request_id: RequestId::new(6),
            key: ArtistKey::local(ArtistId::new(1)),
            name: "Artist".into(),
        },
        &around(1),
        &names,
    );
    let snapshot = actor.snapshot();
    assert_eq!(snapshot.search.error.as_deref(), Some("federation is still starting"));
    assert_eq!(
        snapshot.federation_activity.error.as_deref(),
        Some("federation is still starting")
    );
    assert!(!snapshot.federation_activity.pending);
}

#[test]
fn similar_tracks_are_looked_for_here_unless_the_listener_consents() {
    let asks_network = |consent: bool, joined: bool| {
        let mut settings =
            SettingsSnapshot { device_name: "Own".into(), ..SettingsSnapshot::default() };
        settings.similarity.enabled = true;
        settings.similarity.federation_consent = consent;
        let mut actor = actor_with(settings);
        if joined {
            actor.handle_internal(InternalEvent::FederationStarted(None), &around(1), &names);
        }
        actor.handle_command(
            BackendCommand::SearchSimilar { track: track(1).key },
            &around(2),
            &names,
        );
        actor
            .take_actions()
            .into_iter()
            .find_map(|action| match action {
                Action::SearchSimilar { ask_network, .. } => Some(ask_network),
                _ => None,
            })
    };
    assert_eq!(asks_network(true, true), Some(true));
    assert_eq!(asks_network(false, true), Some(false));
    assert_eq!(asks_network(true, false), Some(false));
}

#[test]
fn shutting_down_ends_what_goes_on() {
    let mut actor = actor();
    play(&mut actor, 0);
    actor.handle_command(
        BackendCommand::Search { request_id: RequestId::new(7), query: "ambient".into() },
        &around(2),
        &names,
    );
    actor.take_actions();
    actor.shut_down();
    let actions = actor.take_actions();
    assert!(matches!(actions[0], Action::CancelSearch { request_id } if request_id == RequestId::new(7)));
    assert!(matches!(actions[1], Action::AudioStop));
    assert_eq!(actions.len(), 2);
}

#[test]
fn the_library_is_read_at_the_start() {
    let mut actor = actor();
    actor.handle_command(BackendCommand::Initialize, &around(1), &names);
    assert!(actor.take_actions().iter().any(|action| matches!(
        action,
        Action::ReadLibrary { purpose: LibraryPurpose::Initialize }
    )));
    actor.handle_internal(
        InternalEvent::LibraryRead {
            purpose: LibraryPurpose::Initialize,
            result: Ok((library(), Vec::new())),
        },
        &around(2),
        &names,
    );
    assert!(matches!(actor.snapshot().library, RemoteData::Ready(_)));
}

#[test]
fn every_published_snapshot_is_newer() {
    let mut actor = actor();
    let before = actor.snapshot().revision;
    actor.publish(Moment { nanos: 1, unix_ms: 1 });
    assert!(actor.snapshot().revision > before);
}

#[test]
fn settings_that_change_are_saved() {
    let mut actor = actor();
    actor.take_actions();
    let settings = SettingsSnapshot {
        network_id: "friends".into(),
        ..actor.settings().clone()
    };
    actor.handle_command(BackendCommand::UpdateSettings(settings), &around(1), &names);
    assert!(actor
        .take_actions()
        .iter()
        .any(|action| matches!(action, Action::SaveSettings { settings } if settings.network_id == "friends")));
}

#[test]
fn a_device_starts_as_the_active_one() {
    let actor = actor();
    assert_eq!(actor.role(), DevicePlaybackRole::Active);
    assert_eq!(actor.active_device_id(), "dev_own");
}

#[test]
fn device_names_are_tidied() {
    assert_eq!(normalize_device_name("  Studio Mac "), "Studio Mac");
    assert_eq!(normalize_device_name("  "), "furumi");
    assert_eq!(configured_device_name(&"Desk".to_string(), &"Stored".to_string()), "Desk");
}
