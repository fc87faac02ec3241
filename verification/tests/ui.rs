//! What the window shows.
use furumi::api::{
    BackendSnapshot, ConnectedDeviceSnapshot, DevicePresence, DeviceTrust,
    FederationActivitySnapshot, FederationDebugSnapshot, LibrarySnapshot, PendingPairingSnapshot,
    PlaybackRepeat, PlaybackStatus, PlaylistSnapshot, RemoteData,
};
use furumi::application::{AppState, Screen, UiAction};
use furumi::catalog::{
    Artist, ArtistId, ArtistKey, ArtistRef, Artwork, AudioSource, CatalogSource, ContentId,
    LocalTrackId, Release, ReleaseId, ReleaseKey, Track, TrackKey,
};
use furumi::media::{media_command, media_flags, MediaCommand, MediaPlayback, MediaState};
use furumi::pictures::{begins_torn, decode_webp, has_overfull_code, needs_webp};
use furumi::ui_events::{
    add_track_to_playlist, navigate, open_playlist, play_queue_item, play_track,
    play_track_context, seek, track_action,
};
use furumi::view::{
    devices_to_views, release_tracks_to_views, render_federation_debug, render_playlist_shell,
    render_queue, tracks_to_views,
};
use furumi::view_catalog::{
    merge_artist_releases, release_artist_credits, release_federation_state,
    sort_releases_newest_first,
};
use furumi::view_keys::{
    format_artist_key, format_release_key, format_track_key, parse_i64, parse_track_key, parse_u64,
};
use furumi::view_labels::{
    artwork_path, federation_node_ids, federation_status, release_type_label,
    search_duration_label, track_artist_label, track_artist_line_break, track_metadata_label,
    track_number_label, track_quality_label,
};
use furumi::view_selection::{artist_releases, breadcrumbs, find_artist_key, selected_release};
use furumi::window::{
    contributor_lines, render_catalog, render_current_track, render_device_shell, render_search,
    render_shell, render_track_info, repeat_mode, track_with_info,
};
use image::ImageEncoder as _;

#[test]
fn webp_is_converted_to_a_slint_image() {
    let mut encoded = Vec::new();
    image::codecs::webp::WebPEncoder::new_lossless(&mut encoded)
        .write_image(&[20, 40, 60, 255], 1, 1, image::ExtendedColorType::Rgba8)
        .unwrap();

    let decoded = decode_webp(&encoded).unwrap();

    assert_eq!(decoded.width, 1);
    assert_eq!(decoded.height, 1);
    assert_eq!(decoded.pixels, vec![20, 40, 60, 255]);
}

#[test]
fn only_webp_is_decoded_here() {
    assert!(decode_webp(b"no picture").is_err());
    assert!(needs_webp(Some("WebP".into())));
    assert!(!needs_webp(Some("png".into())));
    assert!(!needs_webp(None));
}

#[test]
fn release_credits_include_artists_found_only_on_tracks() {
    let pasha = ArtistRef {
        key: ArtistKey::local(ArtistId::new(1)),
        name: "Паша Техник".into(),
    };
    let kunteynir = ArtistRef {
        key: ArtistKey::local(ArtistId::new(2)),
        name: "KUNTEYNIR".into(),
    };
    let metox = ArtistRef {
        key: ArtistKey::local(ArtistId::new(3)),
        name: "Metox".into(),
    };
    let release = Release {
        key: ReleaseKey::local(ReleaseId::new(7)),
        source: CatalogSource::Local,
        title: "Порядочный".into(),
        artists: vec![pasha.clone()],
        featured_artists: Vec::new(),
        release_type: "album".into(),
        year: None,
        artwork: Artwork::default(),
        tracks: vec![Track {
            key: TrackKey::local(LocalTrackId::new(10)),
            title: "12 шагов до рая".into(),
            artist: "KUNTEYNIR feat. Metox".into(),
            artists: vec![kunteynir],
            featured_artists: vec![metox],
            release: "Порядочный".into(),
            release_id: ReleaseKey::local(ReleaseId::new(7)),
            duration_nanos: 219_000_000_000,
            track_number: Some(1),
            disc_number: Some(1),
            cover_uri: None,
            audio_format: Some("mp3".into()),
            audio_bitrate_kbps: Some(320),
            audio_sample_rate_hz: Some(44_100),
            audio_bit_depth: None,
            file_size_bytes: None,
            liked: false,
            audio_source: AudioSource::LocalFile(String::from("track.mp3")),
        }],
    };

    let (main, contributors) = release_artist_credits(&release, Some(&pasha.key));

    assert_eq!(
        main.iter()
            .map(|artist| artist.name.as_str())
            .collect::<Vec<_>>(),
        vec!["Паша Техник"]
    );
    assert_eq!(
        contributors
            .iter()
            .map(|artist| artist.name.as_str())
            .collect::<Vec<_>>(),
        vec!["KUNTEYNIR", "Metox"]
    );
}

#[test]
fn artist_release_tile_reports_mixed_local_and_federated_tracks() {
    let artist = ArtistRef {
        key: ArtistKey::local(ArtistId::new(1)),
        name: "Artist".into(),
    };
    let local = Release {
        key: ReleaseKey::local(ReleaseId::new(7)),
        source: CatalogSource::Local,
        title: "Album".into(),
        artists: vec![artist.clone()],
        featured_artists: Vec::new(),
        release_type: "album".into(),
        year: Some(2026),
        artwork: Artwork::default(),
        tracks: vec![Track {
            key: TrackKey::local(LocalTrackId::new(10)),
            title: "Local".into(),
            artist: "Artist".into(),
            artists: vec![artist.clone()],
            featured_artists: Vec::new(),
            release: "Album".into(),
            release_id: ReleaseKey::local(ReleaseId::new(7)),
            duration_nanos: 100_000_000_000,
            track_number: Some(1),
            disc_number: Some(1),
            cover_uri: None,
            audio_format: Some("flac".into()),
            audio_bitrate_kbps: None,
            audio_sample_rate_hz: None,
            audio_bit_depth: None,
            file_size_bytes: None,
            liked: false,
            audio_source: AudioSource::LocalFile(String::from("local.flac")),
        }],
    };
    let content_id = ContentId::parse(&format!("b3:{}", "a".repeat(64))).unwrap();
    let mut remote_track = local.tracks[0].clone();
    remote_track.key = TrackKey::federation(
        "peer".into(),
        "remote-track".into(),
        Some(content_id.clone()),
    );
    remote_track.title = "Remote".into();
    remote_track.track_number = Some(2);
    remote_track.audio_source = AudioSource::Federation {
        peer_id: "peer".into(),
        content_id,
    };
    let remote = Release {
        key: ReleaseKey::Federation {
            peer_id: "peer".into(),
            id: "album".into(),
        },
        source: CatalogSource::Federation {
            peer_id: "peer".into(),
        },
        title: "Album".into(),
        artists: vec![artist],
        featured_artists: Vec::new(),
        release_type: "album".into(),
        year: Some(2026),
        artwork: Artwork::default(),
        tracks: vec![remote_track],
    };

    let merged = merge_artist_releases(vec![local, remote]);

    assert_eq!(merged.len(), 1);
    assert!(matches!(merged[0].key, ReleaseKey::Local(_)));
    assert_eq!(release_federation_state(&merged[0]), 2);
}

#[test]
fn artist_releases_are_sorted_newest_first_with_unknown_years_last() {
    let artist = ArtistRef {
        key: ArtistKey::local(ArtistId::new(1)),
        name: "Artist".into(),
    };
    let release = |title: &str, year| Release {
        key: ReleaseKey::Federation {
            peer_id: "peer".into(),
            id: title.into(),
        },
        source: CatalogSource::Federation {
            peer_id: "peer".into(),
        },
        title: title.into(),
        artists: vec![artist.clone()],
        featured_artists: Vec::new(),
        release_type: "single".into(),
        year,
        artwork: Artwork::default(),
        tracks: Vec::new(),
    };
    let releases = vec![
        release("Old", Some(1999)),
        release("Unknown", None),
        release("New", Some(2026)),
    ];

    let releases = sort_releases_newest_first(releases);

    assert_eq!(
        releases
            .iter()
            .map(|release| release.title.as_str())
            .collect::<Vec<_>>(),
        vec!["New", "Old", "Unknown"]
    );
}

#[test]
fn release_rows_use_metadata_track_numbers_instead_of_visual_positions() {
    let mut track = Track {
        key: TrackKey::local(LocalTrackId::new(1)),
        title: "Track".into(),
        artist: "Artist".into(),
        artists: Vec::new(),
        featured_artists: Vec::new(),
        release: "Release".into(),
        release_id: ReleaseKey::local(ReleaseId::new(1)),
        duration_nanos: 1_000_000_000,
        track_number: Some(9),
        disc_number: Some(1),
        cover_uri: None,
        audio_format: None,
        audio_bitrate_kbps: None,
        audio_sample_rate_hz: None,
        audio_bit_depth: None,
        file_size_bytes: None,
        liked: false,
        audio_source: AudioSource::LocalFile(String::from("track.flac")),
    };

    assert_eq!(track_number_label(&track, 0, true), "9");
    assert_eq!(track_number_label(&track, 0, false), "1");
    track.track_number = None;
    assert_eq!(track_number_label(&track, 8, true), "—");
}

#[test]
fn full_artist_label_keeps_main_and_featured_artists() {
    let mut track = Track {
        key: TrackKey::local(LocalTrackId::new(1)),
        title: "Track".into(),
        artist: String::new(),
        artists: vec![ArtistRef {
            key: ArtistKey::local(ArtistId::new(1)),
            name: "Main".into(),
        }],
        featured_artists: vec![
            ArtistRef {
                key: ArtistKey::local(ArtistId::new(2)),
                name: "Guest A".into(),
            },
            ArtistRef {
                key: ArtistKey::local(ArtistId::new(3)),
                name: "Guest B".into(),
            },
        ],
        release: "Release".into(),
        release_id: ReleaseKey::local(ReleaseId::new(1)),
        duration_nanos: 1_000_000_000,
        track_number: None,
        disc_number: None,
        cover_uri: None,
        audio_format: None,
        audio_bitrate_kbps: None,
        audio_sample_rate_hz: None,
        audio_bit_depth: None,
        file_size_bytes: None,
        liked: false,
        audio_source: AudioSource::LocalFile(String::from("track.flac")),
    };

    assert_eq!(track_artist_label(&track), "Main feat. Guest A, Guest B");
    track.artists.clear();
    assert_eq!(track_artist_label(&track), "Guest A, Guest B");
}

#[test]
fn contributors_wrap_into_compact_comma_separated_lines() {
    let artists = ["Alpha Alpha", "Beta Beta", "Gamma Gamma"]
        .into_iter()
        .zip(1_i64..)
        .map(|(name, id)| ArtistRef {
            key: ArtistKey::local(ArtistId::new(id)),
            name: name.into(),
        })
        .collect::<Vec<_>>();

    let lines = contributor_lines(&artists, 80);

    assert_eq!(lines.len(), 2);
    assert_eq!(lines[0].artists.len(), 2);
    assert_eq!(lines[1].artists.len(), 1);
    assert_eq!(lines[0].artists[0].prefix, "");
    assert_eq!(lines[0].artists[0].name, "Alpha Alpha,");
    assert_eq!(lines[0].artists[1].prefix, " ");
    assert_eq!(lines[1].artists[0].prefix, "");
}

fn plain_track(id: i64) -> Track {
    Track {
        key: TrackKey::local(LocalTrackId::new(id)),
        title: format!("Track {id}"),
        artist: "Artist".into(),
        artists: vec![ArtistRef {
            key: ArtistKey::local(ArtistId::new(1)),
            name: "Artist".into(),
        }],
        featured_artists: Vec::new(),
        release: "Album".into(),
        release_id: ReleaseKey::local(ReleaseId::new(1)),
        duration_nanos: 61_000_000_000,
        track_number: Some(7),
        disc_number: Some(1),
        cover_uri: Some("file:///covers/one.webp".into()),
        audio_format: Some("flac".into()),
        audio_bitrate_kbps: Some(900),
        audio_sample_rate_hz: Some(44_100),
        audio_bit_depth: Some(16),
        file_size_bytes: Some(1_500_000),
        liked: true,
        audio_source: AudioSource::LocalFile("one.flac".into()),
    }
}

fn plain_release(id: i64, title: &str) -> Release {
    Release {
        key: ReleaseKey::local(ReleaseId::new(id)),
        source: CatalogSource::Local,
        title: title.into(),
        artists: plain_track(1).artists,
        featured_artists: Vec::new(),
        release_type: "album".into(),
        year: Some(2020),
        artwork: Artwork::default(),
        tracks: vec![plain_track(1)],
    }
}

fn artist() -> Artist {
    Artist {
        key: ArtistKey::local(ArtistId::new(1)),
        source: CatalogSource::Local,
        name: "Artist".into(),
        artwork: Artwork::default(),
        release_count: 1,
        track_count: 1,
    }
}

fn backend() -> BackendSnapshot {
    BackendSnapshot {
        library: RemoteData::Ready(LibrarySnapshot {
            artists: vec![artist()],
            featured_releases: vec![plain_release(1, "Album")],
            recently_played: vec![plain_track(1)],
            ..LibrarySnapshot::default()
        }),
        ..BackendSnapshot::default()
    }
}

#[test]
fn shown_keys_read_back() {
    let local = TrackKey::local(LocalTrackId::new(-12));
    assert_eq!(format_track_key(&local), "local:-12");
    assert_eq!(parse_track_key("local:-12"), Some(local));
    let content = ContentId::parse(&format!("b3:{}", "f".repeat(64))).unwrap();
    let remote = TrackKey::federation("peer".into(), "item".into(), Some(content));
    let shown = format_track_key(&remote);
    assert!(parse_track_key(&shown).unwrap().matches(&remote));
    assert_eq!(parse_track_key("nonsense"), None);
    assert_eq!(parse_track_key("local:x"), None);
}

#[test]
fn keys_of_artists_and_releases_are_told_apart() {
    let local = ArtistKey::local(ArtistId::new(7));
    let remote = ArtistKey::Federation { peer_id: "peer".into(), id: "7".into() };
    assert_ne!(format_artist_key(&local), format_artist_key(&remote));
    let local = ReleaseKey::local(ReleaseId::new(7));
    let remote = ReleaseKey::Federation { peer_id: "peer".into(), id: "7".into() };
    assert_ne!(format_release_key(&local), format_release_key(&remote));
}

#[test]
fn numbers_are_read_as_written() {
    assert_eq!(parse_i64("-9223372036854775808"), Some(i64::MIN));
    assert_eq!(parse_i64("9223372036854775808"), None);
    assert_eq!(parse_i64("+5"), Some(5));
    assert_eq!(parse_i64(""), None);
    assert_eq!(parse_i64("-"), None);
    assert_eq!(parse_u64("18446744073709551615"), Some(u64::MAX));
    assert_eq!(parse_u64("18446744073709551616"), None);
    assert_eq!(parse_u64("-0"), None);
}

#[test]
fn labels_say_what_is_known() {
    let track = plain_track(1);
    assert_eq!(track_metadata_label(&track), "FLAC · 900 kbps");
    assert_eq!(
        track_quality_label(&track, Some("44.1 kHz".into())),
        "900 kbps · 44.1 kHz · 16 bit · 1.4 MiB"
    );
    assert_eq!(search_duration_label(999), "999 ms");
    assert_eq!(search_duration_label(1_250), "1.2 s");
    assert_eq!(release_type_label(" ep "), "EP");
    assert_eq!(release_type_label("single"), "Single");
    assert_eq!(release_type_label("ßtück"), "SStück");
    assert_eq!(release_type_label(""), "Release");
    assert_eq!(federation_node_ids("", ""), "n/a");
    assert_eq!(artwork_path(&Some("file:///a b.png".into())).as_deref(), Some("/a b.png"));
    assert_eq!(artwork_path(&Some("  ".into())), None);
    assert_eq!(artwork_path(&None), None);
}

#[test]
fn a_lone_artist_needs_no_line_break() {
    assert!(track_artist_line_break(&plain_track(1)) <= 0);
}

#[test]
fn the_network_line_follows_its_state() {
    let idle = FederationActivitySnapshot::default();
    assert_eq!(federation_status(false, &idle), (false, "Federation disabled".to_string()));
    assert_eq!(federation_status(true, &idle), (false, "Federation ready".to_string()));
    let failed = FederationActivitySnapshot {
        error: Some("no route".into()),
        ..FederationActivitySnapshot::default()
    };
    assert_eq!(
        federation_status(true, &failed),
        (false, "Network error · no route".to_string())
    );
    let busy = FederationActivitySnapshot { pending: true, ..FederationActivitySnapshot::default() };
    assert!(federation_status(true, &busy).0);
}

#[test]
fn rows_are_numbered_by_place_or_by_release() {
    let tracks = vec![plain_track(1), plain_track(2)];
    let current = TrackKey::local(LocalTrackId::new(2));
    let rows = tracks_to_views(&tracks, Some(&current));
    assert_eq!(rows[0].number, "1");
    assert_eq!(rows[1].number, "2");
    assert!(!rows[0].active && rows[1].active);
    assert_eq!(rows[0].duration, "1:01");
    assert_eq!(rows[0].artwork.as_deref(), Some("/covers/one.webp"));
    assert!(rows[0].liked && !rows[0].federated);
    assert_eq!(release_tracks_to_views(&tracks, None)[1].number, "7");
}

#[test]
fn revoked_devices_are_not_shown() {
    let device = |id: &str, trust| ConnectedDeviceSnapshot {
        id: id.into(),
        name: id.into(),
        client_version: "0.2.0".into(),
        is_self: false,
        is_active: false,
        presence: DevicePresence::Online,
        trust,
    };
    let shown = devices_to_views(&vec![
        device("a", DeviceTrust::Trusted),
        device("b", DeviceTrust::Revoked),
    ]);
    assert_eq!(shown.len(), 1);
    assert_eq!(shown[0].details, "online · v0.2.0");
}

#[test]
fn the_devices_are_shown_with_what_went_wrong_last() {
    let mut devices = BackendSnapshot::default().connected_devices;
    devices.group_id = "grp".into();
    devices.active_device_name = "Other".into();
    devices.last_sync = Some("12:00:00 UTC".into());
    let shown = render_device_shell(&devices);
    assert_eq!(shown.group_label, "Network · grp");
    assert_eq!(shown.active_label, "Other");
    assert_eq!(shown.status, "12:00:00 UTC");
    assert_eq!(shown.role_label == "Active device", shown.is_active);
    assert!(shown.devices.is_empty() && shown.invite.is_empty());
    devices.error = Some("unreachable".into());
    assert_eq!(render_device_shell(&devices).status, "unreachable");
}

#[test]
fn what_was_found_is_shown() {
    let mut backend = backend();
    backend.search.results.tracks = vec![plain_track(7)];
    backend.search.results.artists = vec![artist()];
    let found = render_search(&backend);
    assert_eq!((found.artists.len(), found.releases.len(), found.tracks.len()), (1, 0, 1));
    assert_eq!(found.tracks[0].title, plain_track(7).title);
}

#[test]
fn pages_show_what_was_chosen() {
    let backend = backend();
    let release = ReleaseKey::local(ReleaseId::new(1));
    assert_eq!(
        selected_release(&backend, &Screen::Release(release.clone(), None)).unwrap().title,
        "Album"
    );
    assert!(selected_release(&backend, &Screen::Home).is_none());
    assert_eq!(artist_releases(&backend, &artist()).len(), 1);
    let key = format_artist_key(&ArtistKey::local(ArtistId::new(1)));
    assert_eq!(find_artist_key(&backend, &key), Some(ArtistKey::local(ArtistId::new(1))));
    assert_eq!(find_artist_key(&backend, "nobody"), None);
    let home = breadcrumbs(&backend, &Screen::Home);
    assert_eq!((home.len(), home[0].label.as_str()), (1, "Home"));
    let way = breadcrumbs(&backend, &Screen::Search);
    assert_eq!(way[0].label, "Home › ");
    assert_eq!((way[1].label.as_str(), way[1].target.as_str()), ("Search", ""));
    assert!(breadcrumbs(&backend, &Screen::Release(release, None)).len() > 1);
    let catalog = render_catalog(&backend, &Screen::Home);
    assert_eq!(catalog.recent.len(), 1);
}

#[test]
fn an_empty_player_shows_an_empty_track() {
    let current = render_current_track(&BackendSnapshot::default());
    assert!(current.artists.is_empty());
    assert!(render_queue(BackendSnapshot::default().queue.items(), None).is_empty());
    let shell = render_shell(&AppState::default());
    assert!(!shell.can_go_back && !shell.can_go_forward);
    assert_eq!(repeat_mode(PlaybackRepeat::Off), 0);
    assert_eq!(repeat_mode(PlaybackRepeat::One), 1);
    assert_eq!(repeat_mode(PlaybackRepeat::All), 2);
}

#[test]
fn information_names_the_seconds() {
    let info = render_track_info(&plain_track(1), "61.0", Some("44.1 kHz".into()));
    assert!(info.duration.contains("61.0"));
    assert!(info.duration.starts_with("1:01"));
}

#[test]
fn gestures_become_actions() {
    assert_eq!(navigate("search"), UiAction::Navigate(Screen::Search));
    assert_eq!(navigate("elsewhere"), UiAction::Navigate(Screen::Home));
    let key = TrackKey::local(LocalTrackId::new(1));
    assert_eq!(track_action("like", "local:1"), Some(UiAction::ToggleLike(key.clone())));
    assert_eq!(track_action("play-next", "local:1"), Some(UiAction::AddNext(vec![key.clone()])));
    assert_eq!(track_action("fly", "local:1"), None);
    assert_eq!(track_action("like", "?"), None);
    assert_eq!(play_track("local:1"), Some(UiAction::PlayTrack(key.clone())));
    assert_eq!(open_playlist("4"), Some(UiAction::Navigate(Screen::Playlist(4))));
    assert_eq!(open_playlist("four"), None);
    assert!(play_queue_item("12").is_some());
    assert_eq!(play_queue_item("-1"), None);
    assert_eq!(seek(500_000_000, 180_000_000_000), UiAction::Seek(90_000_000_000));
    assert_eq!(seek(1_000_000_000, 7), UiAction::Seek(7));
}

#[test]
fn a_context_plays_only_with_the_chosen_track_in_it() {
    let state = AppState { backend: backend(), ..AppState::default() };
    let chosen = play_track_context(&state, "recent", "local:1");
    let key = TrackKey::local(LocalTrackId::new(1));
    assert_eq!(
        chosen,
        Some(UiAction::PlayContext { tracks: vec![key.clone()], selected: key })
    );
    assert_eq!(play_track_context(&state, "recent", "local:9"), None);
    assert_eq!(play_track_context(&state, "elsewhere", "local:1"), None);
}

#[test]
fn the_desktop_is_told_of_changes_alone() {
    let mut media = MediaState::new();
    assert!(media.update_metadata("Title", "Artist", "Album", 1_250_000_000));
    assert!(!media.update_metadata("Title", "Artist", "Album", 1_250_900_000));
    assert!(media.update_metadata("Other", "Artist", "Album", 1_250_000_000));
    assert_eq!(
        media.update_playback(true, false, 5_000_000_000, 0),
        Some(MediaPlayback::Playing { position_ms: 5_000 })
    );
    assert_eq!(media.update_playback(true, false, 5_500_000_000, 500_000_000), None);
    assert_eq!(
        media.update_playback(true, true, 5_500_000_000, 600_000_000),
        Some(MediaPlayback::Paused { position_ms: 5_500 })
    );
    assert_eq!(
        media.update_playback(false, false, 0, 3_000_000_000),
        Some(MediaPlayback::Stopped)
    );
    assert_eq!(media_flags(PlaybackStatus::Paused), (true, true));
    assert_eq!(media_flags(PlaybackStatus::Stopped), (false, false));
    assert_eq!(
        media_command(MediaCommand::Toggle),
        furumi::api::BackendCommand::TogglePlayback
    );
}

#[test]
fn a_device_of_the_same_network_is_in_no_conflict() {
    let pending = |group: &str| PendingPairingSnapshot {
        request_id: "request".into(),
        device_id: "device".into(),
        name: "Phone".into(),
        client_version: "0.2.0".into(),
        requester_group_id: Some(group.into()),
        requester_group_active_devices: 3,
    };
    let mut devices = BackendSnapshot::default().connected_devices;
    devices.group_id = "grp".into();
    devices.pending_pairings = vec![pending("grp"), pending("other")];
    let conflicts: Vec<bool> = render_device_shell(&devices)
        .pairings
        .iter()
        .map(|pairing| pairing.group_conflict)
        .collect();
    assert_eq!(conflicts, vec![false, true]);
}

/// An animation of one frame that is 2 by 2, with its opacity apart, before a
/// picture of the given size.
fn animation(width: u8, height: u8) -> Vec<u8> {
    let mut frame = b"ANMF".to_vec();
    frame.extend([44, 0, 0, 0]);
    frame.extend([0; 6]);
    frame.extend([1, 0, 0, 1, 0, 0, 0, 0, 0, 0]);
    frame.extend(b"ALPH");
    frame.extend([2, 0, 0, 0, 0, 0]);
    frame.extend(b"VP8 ");
    frame.extend([10, 0, 0, 0, 0, 0, 0, 0x9d, 0x01, 0x2a, width, 0, height, 0]);
    let mut file = b"RIFF".to_vec();
    file.extend([82, 0, 0, 0]);
    file.extend(b"WEBPVP8X");
    file.extend([10, 0, 0, 0, 0b1_0010, 0, 0, 0, 1, 0, 0, 1, 0, 0]);
    file.extend(b"ANIM");
    file.extend([6, 0, 0, 0, 0, 0, 0, 0, 0, 0]);
    file.extend(frame);
    file
}

#[test]
fn a_torn_animation_is_no_picture() {
    for (width, height) in [(3, 2), (2, 3), (2, 1), (0, 2), (2, 0)] {
        assert!(begins_torn(&animation(width, height)));
        let read = decode_webp(&animation(width, height));
        assert_eq!(read, Err("the first frame is torn".into()));
    }
    for (width, height) in [(2, 2), (1, 2), (4, 1)] {
        assert!(!begins_torn(&animation(width, height)));
        assert!(decode_webp(&animation(width, height)).is_err());
    }
    assert!(!begins_torn(b"no picture"));
}

fn push_bits(bits: &mut Vec<bool>, value: u32, count: u32) {
    bits.extend((0..count).map(|i| value >> i & 1 == 1));
}

fn bytes_of(bits: &[bool]) -> Vec<u8> {
    bits.chunks(8)
        .map(|byte| byte.iter().rev().fold(0, |value, bit| value * 2 + u8::from(*bit)))
        .collect()
}

/// A file with one chunk.
fn riff(name: &[u8; 4], data: &[u8]) -> Vec<u8> {
    let size = |n: usize| u32::try_from(n).unwrap().to_le_bytes();
    let mut file = b"RIFF".to_vec();
    file.extend(size(data.len() + 12));
    file.extend(b"WEBP");
    file.extend(name);
    file.extend(size(data.len()));
    file.extend(data);
    file
}

/// The codes of a lossless picture; the first has words of these lengths.
fn codes_with(lengths: &[u32]) -> Vec<bool> {
    let mut bits = Vec::new();
    push_bits(&mut bits, 0, 3);
    push_bits(&mut bits, 0, 1);
    push_bits(&mut bits, 15, 4);
    for symbol in [17, 18, 0, 1, 2, 3, 4, 5, 16, 6, 7, 8, 9, 10, 11, 12, 13, 14, 15] {
        push_bits(&mut bits, if symbol < 16 { 4 } else { 0 }, 3);
    }
    push_bits(&mut bits, 1, 1);
    push_bits(&mut bits, 3, 3);
    push_bits(&mut bits, u32::try_from(lengths.len()).unwrap() - 2, 8);
    for length in lengths {
        bits.extend((0..4).rev().map(|i| length >> i & 1 == 1));
    }
    bits
}

fn lossless(codes: &[bool]) -> Vec<u8> {
    let mut bits = Vec::new();
    push_bits(&mut bits, 0x2f, 8);
    push_bits(&mut bits, 0, 32);
    bits.extend(codes);
    bytes_of(&bits)
}

#[test]
fn an_overfull_code_is_no_picture() {
    let mut full: Vec<u32> = (1..=15).collect();
    full.push(15);
    let mut overfull = vec![1, 1];
    overfull.extend(&full);
    let broken = riff(b"VP8L", &lossless(&codes_with(&overfull)));
    assert!(has_overfull_code(&broken));
    assert_eq!(decode_webp(&broken), Err("a code is over-full".into()));
    let complete = riff(b"VP8L", &lossless(&codes_with(&full)));
    assert!(!has_overfull_code(&complete));
    assert!(decode_webp(&complete).is_err());
    let cut = &broken[..broken.len() - 4];
    assert!(!has_overfull_code(cut) && decode_webp(cut).is_err());
    assert!(!has_overfull_code(b"no picture"));
}

#[test]
fn an_overfull_opacity_is_no_picture() {
    let mut lengths: Vec<u32> = vec![1, 1];
    lengths.extend(1..=15);
    lengths.push(15);
    let mut bits = Vec::new();
    push_bits(&mut bits, 1, 8);
    bits.extend(codes_with(&lengths));
    let opacity = bytes_of(&bits);
    let chunk = |name: &[u8; 4], data: &[u8]| riff(name, data)[12..].to_vec();
    let still = |flags: u8| {
        let mut file = riff(b"VP8X", &[flags, 0, 0, 0, 1, 0, 0, 1, 0, 0]);
        file.extend(chunk(b"ALPH", &opacity));
        file.resize(file.len() + opacity.len() % 2, 0);
        file.extend(chunk(b"VP8 ", &[0; 10]));
        let size = u32::try_from(file.len() - 8).unwrap().to_le_bytes();
        file[4..8].copy_from_slice(&size);
        file
    };
    assert!(has_overfull_code(&still(0b1_0000)));
    assert!(!has_overfull_code(&still(0)));
    assert!(decode_webp(&still(0b1_0000)).is_err());
}

#[test]
fn ordinary_lossless_pictures_are_read() {
    let smooth: Vec<u8> = (0..48u32 * 33)
        .flat_map(|i| [(i % 48) as u8 * 5, (i / 48) as u8 * 7, (i % 11) as u8, 255])
        .collect();
    let mut seed = 9u32;
    let rough: Vec<u8> = (0..48 * 33 * 4)
        .map(|_| {
            seed = seed.wrapping_mul(1_664_525).wrapping_add(1_013_904_223);
            (seed >> 24) as u8
        })
        .collect();
    for pixels in [smooth, rough] {
        let mut encoded = Vec::new();
        image::codecs::webp::WebPEncoder::new_lossless(&mut encoded)
            .write_image(&pixels, 48, 33, image::ExtendedColorType::Rgba8)
            .unwrap();
        assert!(!has_overfull_code(&encoded));
        let decoded = decode_webp(&encoded).unwrap();
        assert_eq!((decoded.width, decoded.height), (48, 33));
        assert_eq!(decoded.pixels, pixels);
    }
}

#[test]
fn playlists_are_shown_with_their_extent() {
    let playlist = |id: i64, tracks: Vec<Track>| PlaylistSnapshot {
        id,
        title: format!("Mix {id}"),
        is_likes: false,
        tracks,
    };
    let shown = render_playlist_shell(&vec![
        playlist(4, vec![plain_track(1)]),
        playlist(5, vec![plain_track(1), plain_track(2)]),
    ]);
    assert_eq!((shown[0].id.as_str(), shown[0].details.as_str()), ("4", "1 track"));
    assert_eq!((shown[1].title.as_str(), shown[1].details.as_str()), ("Mix 5", "2 tracks"));
}

#[test]
fn the_state_of_the_node_is_shown() {
    let mut debug = FederationDebugSnapshot {
        connected_peers: 2,
        known_contacts: 5,
        published_items: 7,
        ..FederationDebugSnapshot::default()
    };
    let shown = render_federation_debug(&debug);
    assert_eq!((shown.node.as_str(), shown.dht.as_str()), ("Stopped", "n/a"));
    assert_eq!(shown.peers, "2 connected · 5 known");
    assert_eq!(shown.published, "7 items");
    debug.error = Some("no route".into());
    assert_eq!(render_federation_debug(&debug).node, "Error");
    debug.running = true;
    debug.stored_dht_records = Some(3);
    let shown = render_federation_debug(&debug);
    assert_eq!((shown.node.as_str(), shown.dht.as_str()), ("Running", "3 records"));
}

#[test]
fn the_track_in_the_picker_goes_to_the_chosen_playlist() {
    let mut state = AppState::default();
    assert_eq!(add_track_to_playlist(&state, "4"), None);
    state.frontend.playlist_picker_track = Some(plain_track(1).key);
    assert_eq!(add_track_to_playlist(&state, "four"), None);
    assert_eq!(
        add_track_to_playlist(&state, "4"),
        Some(UiAction::AddToPlaylist { playlist_id: 4, tracks: vec![plain_track(1).key] })
    );
}

#[test]
fn details_are_shown_of_a_track_at_hand() {
    let mut state = AppState { backend: backend(), ..AppState::default() };
    assert!(track_with_info(&state).is_none());
    state.frontend.track_info = Some(plain_track(1).key);
    assert_eq!(track_with_info(&state).unwrap().title, "Track 1");
    state.frontend.track_info = Some(plain_track(99).key);
    assert!(track_with_info(&state).is_none());
}
