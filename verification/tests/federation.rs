//! What peers publish, what is fetched from them and how it is shown.
use furumi::api::{SearchResults, SimilaritySettingsSnapshot};
use furumi::artwork::{
    apply_artwork, artwork_request, artwork_targets, cached_image_names, image_answer,
    image_extension, image_file_name, ArtworkTarget, ImageAnswer,
};
use furumi::build_info::{
    expand_tilde, milliseconds_of, runtime_build_info, unix_time_ms, ProtocolVersions,
    SoftwareVersions,
};
use furumi::catalog::{
    Artist, ArtistKey, Artwork, AudioSource, CatalogSource, LocalTrackId, Track, TrackKey,
};
use furumi::federation::{
    artist_line, card_results, catalog_owners, convert_items, first_published_track, search_stats,
    CatalogAppearance, CatalogArtist, CatalogRelease, CatalogTrack, ItemKind, LibraryItem,
};
use furumi::federation_similarity::{
    answer_query, asked_limit, hit_to_track, network_allowed, query_peers, rank_answers, route_change,
    route_change_to, RouteChange, RouteMarker, SimilarQuery, SimilarityHit,
};
use furumi::hex::{hex_encode, hex_text};
use furumi::library::{
    library_artist, library_release, library_track, mark_likes, track_is_liked, LibraryArtist,
    LibraryArtistCard, LibraryRelease, LibraryTrack,
};
use furumi::lockfile::package_version;
use furumi::publishing::{
    apply_federated_metadata, federation_specs, like_target, to_library_fed,
    track_to_library_fed, ExportedArtist,
    ExportedRelease, ExportedTrack, FederationExport, LikeTarget, TrackImport, TrackMetadata,
};
use furumi::similarity::{
    rank_similarity_candidates, similar_tracks, Candidate, LocalMatch,
};
use furumi::streaming::{
    accept_audio, accept_catalog, audio_extension, audio_file_name, catalog_fits,
    partial_file_name, push_header_byte, AudioHeader, HeaderStep, MAX_CATALOG_BYTES,
    MAX_HEADER_BYTES, STREAM_BUFFER,
};
use furumi::wire::{normalize_content_id, track_to_synced_fed};

fn names(name: &str) -> String {
    name.trim().to_lowercase()
}

fn content(digit: &str) -> String {
    format!("b3:{}", digit.repeat(64))
}

fn item(owner: &str, id: &str, kind: ItemKind, name: &str) -> LibraryItem {
    LibraryItem {
        owner: owner.into(),
        id: id.into(),
        kind,
        name: name.into(),
        normalized_name: names(name),
        artist_names: vec!["Artist".into()],
        featured_artist_names: Vec::new(),
        release_type: Some("album".into()),
        release_title: Some("Album".into()),
        year: Some(2020),
        duration_nanos: Some(60_000_000_000),
        track_number: Some(1),
        disc_number: Some(1),
        content_id: Some(content("1")),
    }
}

#[test]
fn own_publications_are_left_out_of_results() {
    let items = vec![
        item("own", "a", ItemKind::Track, "Mine"),
        item("peer", "b", ItemKind::Track, "Theirs"),
        item("peer", "c", ItemKind::Release, "Album"),
    ];
    let results = convert_items(&items, "own", &names);
    assert_eq!(results.tracks.len(), 1);
    assert_eq!(results.tracks[0].title, "Theirs");
    assert_eq!(results.releases.len(), 1);
    let first = first_published_track(&items, "own", &names).unwrap();
    assert_eq!(first.title, "Theirs");
    assert!(first_published_track(&Vec::new(), "own", &names).is_none());
    let stats = search_stats(&results, 3, 12);
    assert_eq!((stats.tracks, stats.peers_queried, stats.duration_ms), (1, 3, 12));
    assert_eq!(search_stats(&results, 0, u128::MAX).duration_ms, u64::MAX);
}

#[test]
fn catalogs_are_asked_of_the_peers_that_name_the_artist() {
    let items = vec![
        item("own", "a", ItemKind::Track, "Mine"),
        item("peer", "b", ItemKind::Track, "Theirs"),
        item("peer", "c", ItemKind::Artist, "artist"),
        LibraryItem { artist_names: vec!["Other".into()], ..item("far", "d", ItemKind::Track, "X") },
    ];
    assert_eq!(catalog_owners(&items, "own", "ARTIST ", &names), vec!["peer".to_string()]);
}

fn catalog_track(id: &str, title: &str) -> CatalogTrack {
    CatalogTrack {
        item_id: id.into(),
        title: title.into(),
        artists: vec!["Artist".into()],
        featured_artists: Vec::new(),
        duration_nanos: Some(1_000_000_000),
        track_number: Some(1),
        disc_number: None,
        content_id: Some(content("2")),
    }
}

#[test]
fn a_card_lists_the_releases_of_an_artist_once() {
    let catalog = || CatalogArtist {
        releases: vec![CatalogRelease {
            title: "Album".into(),
            release_type: "album".into(),
            year: Some(2020),
            tracks: vec![catalog_track("t1", "One")],
        }],
        appears_on: vec![CatalogAppearance {
            release_title: "Sampler".into(),
            track: catalog_track("t2", "Guest"),
        }],
    };
    let card = card_results("Artist", vec![("peer".into(), catalog()), ("other".into(), catalog())], &names);
    let albums = card.releases.iter().filter(|release| release.title == "Album").count();
    assert_eq!(albums, 1);
    assert!(card_results("Artist", Vec::new(), &names).releases.is_empty());
    assert_eq!(artist_line(&vec!["A".into()], &vec!["B".into()]), "A feat. B");
}

fn remote_artist(uri: Option<&str>) -> Artist {
    Artist {
        key: ArtistKey::Federation { peer_id: "peer".into(), id: "artist".into() },
        source: CatalogSource::Federation { peer_id: "peer".into() },
        name: "Artist".into(),
        artwork: Artwork { uri: uri.map(String::from) },
        release_count: 0,
        track_count: 0,
    }
}

#[test]
fn pictures_are_asked_of_the_peers_that_have_them() {
    let mut results = SearchResults {
        artists: vec![
            remote_artist(None),
            Artist { source: CatalogSource::Local, ..remote_artist(Some("here.png")) },
        ],
        ..SearchResults::default()
    };
    let targets = artwork_targets(&results);
    assert_eq!(targets, vec![ArtworkTarget::Artist(0), ArtworkTarget::Artist(1)]);
    assert!(artwork_request(&results, ArtworkTarget::Artist(1)).is_none());
    let request = artwork_request(&results, ArtworkTarget::Artist(0)).unwrap();
    assert_eq!(request.peer_id, "peer");
    assert_eq!(request.artist, "Artist");
    apply_artwork(&mut results, ArtworkTarget::Artist(0), "new.png");
    assert_eq!(results.artists[0].artwork.uri.as_deref(), Some("new.png"));
    assert_eq!(results.artists[1].artwork.uri.as_deref(), Some("here.png"));
}

#[test]
fn pictures_are_kept_under_their_hash() {
    assert_eq!(hex_text(0xbeef), "000000000000beef");
    assert_eq!(hex_encode(&[0x00, 0x0f, 0xa5]), "000fa5");
    let name = image_file_name(0xbeef, image_extension("image/png"));
    assert!(cached_image_names(0xbeef).contains(&name));
    assert_ne!(image_extension("image/png"), image_extension("image/webp"));
    assert_eq!(image_answer(false, 5), ImageAnswer::Nothing);
    assert_eq!(image_answer(true, 0), ImageAnswer::Nothing);
    assert_eq!(image_answer(true, 5), ImageAnswer::Bytes(5));
    assert_eq!(image_answer(true, u64::MAX), ImageAnswer::TooLarge);
}

fn header(ok: bool, total_size: u64) -> AudioHeader {
    AudioHeader {
        ok,
        error: None,
        mime_type: "audio/flac".into(),
        total_size,
        cover_size: 0,
        artist_image_size: 0,
    }
}

#[test]
fn a_track_plays_once_enough_of_it_is_there() {
    let mut progress = accept_audio(&header(true, STREAM_BUFFER * 2)).unwrap();
    assert!(!progress.bytes_received(STREAM_BUFFER - 1));
    assert!(progress.bytes_received(1));
    assert!(!progress.bytes_received(STREAM_BUFFER));
    assert!(progress.is_complete());
    assert_eq!(progress.received(), STREAM_BUFFER * 2);
    assert!(!progress.stream_ended());

    let mut short = accept_audio(&header(true, 10)).unwrap();
    short.bytes_received(4);
    assert!(!short.is_complete());
}

#[test]
fn refused_tracks_are_told_why() {
    assert!(accept_audio(&header(false, 10)).is_err());
    let told = AudioHeader { error: Some("gone".into()), ..header(false, 10) };
    assert_eq!(accept_audio(&told).err().as_deref(), Some("gone"));
    assert!(accept_catalog(false, Some("busy".into()), None).is_err());
    assert!(accept_catalog(true, None, None).is_err());
    assert!(accept_catalog(
        true,
        None,
        Some(CatalogArtist { releases: Vec::new(), appears_on: Vec::new() })
    )
    .is_ok());
    assert!(catalog_fits(MAX_CATALOG_BYTES));
    assert!(!catalog_fits(MAX_CATALOG_BYTES + 1));
}

#[test]
fn header_lines_end_and_are_bounded() {
    let mut line = Vec::new();
    assert_eq!(push_header_byte(&mut line, b'a'), HeaderStep::More);
    assert_eq!(push_header_byte(&mut line, b'\n'), HeaderStep::Complete);
    assert_eq!(line, b"a");
    let mut long = vec![b'x'; MAX_HEADER_BYTES];
    assert_eq!(push_header_byte(&mut long, b'x'), HeaderStep::TooLarge);
}

#[test]
fn files_are_named_by_their_kind() {
    assert_eq!(audio_file_name("song", "audio/flac"), format!("song.{}", audio_extension("audio/flac")));
    assert_ne!(audio_extension("audio/flac"), audio_extension("audio/mpeg"));
    assert_ne!(partial_file_name("song", "audio/flac"), audio_file_name("song", "audio/flac"));
}

fn distance(a: &[u8; 16], b: &[u8; 16]) -> u32 {
    a.iter().zip(b).map(|(a, b)| (a ^ b).count_ones()).sum()
}

fn hit(score: i32, id: &str, digit: &str) -> SimilarityHit {
    SimilarityHit {
        score,
        item_id: id.into(),
        title: format!("Title {id}"),
        artist_names: vec!["Artist".into()],
        featured_artist_names: Vec::new(),
        year: None,
        duration_seconds: Some(180),
        content_id: Some(content(digit)),
        release_title: None,
        track_number: None,
        disc_number: None,
        embedding_signature: None,
    }
}

#[test]
fn answers_are_ranked_by_their_score() {
    let candidates: Vec<Candidate> = vec![hit(10, "a", "1"), hit(30, "b", "2"), hit(20, "c", "3")]
        .into_iter()
        .filter_map(|hit| hit_to_track("peer", hit, &names))
        .collect();
    assert_eq!(candidates.len(), 3);
    let query = SimilarQuery {
        signature: [0; 16],
        source_content_id: Some(content("3")),
        limit: 10,
        network_limit: 50,
        minimum_score: Some(15),
        max_tracks_per_artist: 5,
    };
    let ranked = rank_answers(&query, candidates, &names, &distance);
    let titles: Vec<&str> = ranked.iter().map(|answer| answer.track.title.as_str()).collect();
    assert_eq!(titles, vec!["Title b"]);
    assert_eq!(asked_limit(10, 50), 10);
    assert_eq!(asked_limit(60, 50), 50);
    assert_eq!(asked_limit(0, 50), 1);
}

#[test]
fn one_artist_does_not_fill_the_answers() {
    let candidates: Vec<Candidate> = vec![hit(10, "a", "1"), hit(30, "b", "2"), hit(20, "c", "3")]
        .into_iter()
        .filter_map(|hit| hit_to_track("peer", hit, &names))
        .collect();
    let ranked = rank_similarity_candidates(candidates, 2, &names, &distance);
    assert_eq!(ranked.len(), 2);
    assert_eq!(ranked[0].title, "Title b");
}

#[test]
fn recordings_that_sound_the_same_are_answered_once() {
    let candidates = |first: u8, second: u8| -> Vec<Candidate> {
        vec![(hit(10, "a", "1"), first), (hit(30, "b", "2"), second)]
            .into_iter()
            .filter_map(|(hit, byte)| {
                let signature = Some([byte; 16]);
                hit_to_track("peer", SimilarityHit { embedding_signature: signature, ..hit }, &names)
            })
            .collect()
    };
    assert_eq!(rank_similarity_candidates(candidates(0, 0), 5, &names, &distance).len(), 1);
    assert_eq!(rank_similarity_candidates(candidates(0, 1), 5, &names, &distance).len(), 2);
    let always_near = |_: &[u8; 16], _: &[u8; 16]| 8;
    assert_eq!(rank_similarity_candidates(candidates(0, 1), 5, &names, &always_near).len(), 1);
}

#[test]
fn the_library_and_the_network_are_ranked_together() {
    let found = || vec![LocalMatch { track: library_row(9), score: 25, signature: [7; 16] }];
    let offered: Vec<Candidate> = vec![hit(10, "a", "1"), hit(30, "b", "2")]
        .into_iter()
        .filter_map(|hit| hit_to_track("peer", hit, &names))
        .collect();
    let titles = |tracks: Vec<Track>| -> Vec<String> {
        tracks.into_iter().map(|track| track.title).collect()
    };
    assert_eq!(
        titles(similar_tracks(found(), Some(offered), 5, &names, &distance)),
        vec!["Title b", "Track", "Title a"]
    );
    assert_eq!(titles(similar_tracks(found(), None, 5, &names, &distance)), vec!["Track"]);
}

#[test]
fn peers_are_asked_once() {
    let peers = query_peers(
        "own",
        vec![("peer".into(), "ticket".into()), ("own".into(), "x".into())],
        vec!["peer".into(), "other".into()],
    );
    assert_eq!(peers.len(), 2);
    assert_eq!(peers[0].ticket.as_deref(), Some("ticket"));
    assert_eq!(peers[1].owner, "other");
}

#[test]
fn routes_are_announced_when_the_index_changes() {
    let index = Some(("profile".to_string(), vec![vec![1u8, 2], vec![3]]));
    let RouteChange::Announce(marker) = route_change(&None, &index) else {
        panic!("nothing announced");
    };
    assert_eq!(marker.profile_id, "profile");
    assert_eq!(marker.digest, *blake3::hash(&[1, 2, 3]).as_bytes());
    assert_eq!(route_change(&Some(marker), &index), RouteChange::Nothing);
    let other = Some(("profile".to_string(), vec![vec![9u8]]));
    let old = RouteMarker { profile_id: "profile".into(), digest: [0; 32] };
    assert!(matches!(route_change(&Some(old), &other), RouteChange::Announce(_)));
    let old = RouteMarker { profile_id: "profile".into(), digest: [0; 32] };
    assert_eq!(route_change_to(&Some(old), None), RouteChange::Withdraw);
    assert_eq!(route_change_to(&None, None), RouteChange::Nothing);
}

#[test]
fn the_library_is_published_by_kind() {
    let export = FederationExport {
        artists: vec![ExportedArtist { id: 1, name: "Artist".into() }],
        releases: vec![ExportedRelease {
            id: 1,
            title: "Album".into(),
            artist_names: vec!["Artist".into()],
            year: Some(2020),
            release_type: "album".into(),
        }],
        tracks: vec![ExportedTrack {
            id: -1,
            title: "Track".into(),
            artist_names: vec!["Artist".into()],
            featured_artist_names: Vec::new(),
            year: None,
            release_type: "album".into(),
            release_title: "Album".into(),
            track_number: Some(1),
            disc_number: None,
            duration_nanos: 0,
            content_id: None,
        }],
    };
    let specs = federation_specs(export);
    let keys: Vec<&str> = specs.iter().map(|spec| spec.local_key.as_str()).collect();
    assert_eq!(keys, vec!["artist:1", "release:1", "track:-1"]);
    assert_eq!(specs[1].release_type.as_deref(), Some("album"));
    assert_eq!(specs[2].release_title.as_deref(), Some("Album"));
    assert_eq!(specs[2].duration_nanos, None);
    assert_eq!(specs[2].kind, ItemKind::Track);
}

#[test]
fn peers_amend_what_a_file_says() {
    let import = || TrackImport {
        title: "File".into(),
        artists: vec!["F".into()],
        featured_artists: Vec::new(),
        album_artists: Vec::new(),
        release_title: "File album".into(),
        release_type: Some("single".into()),
        year: Some(1999),
        track_number: None,
        disc_number: None,
        duration_nanos: 5,
        audio_format: Some("mp3".into()),
        audio_bitrate: None,
        audio_sample_rate: None,
        audio_bit_depth: None,
    };
    let metadata = TrackMetadata {
        title: "Peer".into(),
        artists: Vec::new(),
        featured_artists: vec!["G".into()],
        album_artists: Vec::new(),
        release_title: "  ".into(),
        release_type: None,
        year: Some(2020),
        track_number: Some(3),
        disc_number: None,
        duration_nanos: Some(7),
        audio_format: None,
        audio_bitrate: Some(320),
        audio_sample_rate: None,
        audio_bit_depth: None,
    };
    assert_eq!(apply_federated_metadata(import(), None), import());
    let amended = apply_federated_metadata(import(), Some(metadata));
    assert_eq!(amended.title, "Peer");
    assert_eq!(amended.artists, vec!["F"]);
    assert_eq!(amended.featured_artists, vec!["G"]);
    assert_eq!(amended.release_title, "File album");
    assert_eq!(amended.release_type.as_deref(), Some("single"));
    assert_eq!(amended.year, Some(2020));
    assert_eq!(amended.track_number, Some(3));
    assert_eq!(amended.duration_nanos, 7);
    assert_eq!(amended.audio_format.as_deref(), Some("mp3"));
    assert_eq!(amended.audio_bitrate, Some(320));
}

fn library_row(id: i64) -> LibraryTrack {
    LibraryTrack {
        id,
        content_id: Some(content("4").to_uppercase()),
        title: "Track".into(),
        artist_line: "Artist".into(),
        artists: vec![LibraryArtist { id: 1, name: "Artist".into() }],
        featured_artists: Vec::new(),
        release_id: 2,
        release_title: "Album".into(),
        release_year: Some(2020),
        duration_nanos: 60_000_000_000,
        track_number: Some(1),
        disc_number: Some(-1),
        cover_path: Some("cover.png".into()),
        audio_format: Some("flac".into()),
        audio_bitrate: Some(900),
        audio_sample_rate: Some(44_100),
        audio_bit_depth: Some(16),
        file_size_bytes: Some(1),
        file_path: "track.flac".into(),
    }
}

#[test]
fn rows_of_the_library_become_tracks() {
    let track = library_track(library_row(9), "Nobody");
    assert_eq!(track.key.local_id(), Some(LocalTrackId::new(9)));
    assert_eq!(track.key.content_id().unwrap().as_str(), content("4"));
    assert_eq!(track.disc_number, None);
    assert_eq!(track.audio_source, AudioSource::LocalFile("track.flac".into()));
    assert!(track_is_liked(&track, &vec![content("4")]));
    assert!(!track_is_liked(&track, &vec![content("5")]));
    let mut tracks: Vec<Track> = vec![track];
    mark_likes(&mut tracks, &vec![content("4")]);
    assert!(tracks[0].liked);
    assert!(track_to_library_fed(&tracks[0]).is_none());

    let release = library_release(LibraryRelease {
        id: 2,
        title: "Album".into(),
        artists: vec![LibraryArtist { id: 1, name: "Artist".into() }],
        release_type: "album".into(),
        year: Some(2020),
        cover_path: None,
        tracks: vec![library_row(9)],
    });
    assert!(release.is_album());
    assert_eq!(release.artist_line(), "Artist");
    let artist = library_artist(LibraryArtistCard {
        id: 1,
        name: "Artist".into(),
        image_path: None,
        release_count: -3,
        track_count: 4,
    });
    assert_eq!((artist.release_count, artist.track_count), (0, 4));
}

#[test]
fn tracks_of_peers_are_noted_by_peer_and_content() {
    let items = vec![item("peer", "b", ItemKind::Track, "Theirs")];
    let track = first_published_track(&items, "own", &names).unwrap();
    let noted = track_to_library_fed(&track).unwrap();
    assert_eq!((noted.owner.as_str(), noted.item_id.as_str()), ("peer", "b"));
    assert_eq!(noted.content_id, Some(content("1")));
    assert!(!noted.own);
    assert_eq!(track.key, TrackKey::federation("peer".into(), "b".into(), normalize_content_id(&content("1"))));
}

#[test]
fn likes_are_kept_where_the_track_is() {
    let items = vec![item("peer", "b", ItemKind::Track, "Theirs")];
    let track = first_published_track(&items, "own", &names).unwrap();
    let fed = track_to_synced_fed(&track).unwrap();
    assert_eq!(to_library_fed(&fed).item_id, "b");
    assert_eq!(to_library_fed(&fed).content_id, Some(content("1")));
    assert_eq!(like_target(true, Some(fed.clone())), Ok(LikeTarget::Library));
    assert_eq!(
        like_target(false, Some(fed.clone())),
        Ok(LikeTarget::Publication { fed })
    );
    assert_eq!(
        like_target(false, None),
        Err("track cannot be stored as a federated like".to_string())
    );
}

#[test]
fn content_is_known_in_either_case() {
    let upper = format!("B3:{}", "A".repeat(64));
    assert_eq!(normalize_content_id(&upper).unwrap().as_str(), content("a"));
    assert!(normalize_content_id(&format!(" {upper}")).is_none());
}

#[test]
fn the_program_names_its_parts() {
    let software = SoftwareVersions {
        desktop: "1.0",
        library: "2.0",
        music_dht: "3.0",
        federation_net: "4.0",
    };
    let protocols = ProtocolVersions {
        federation_net: Some(4),
        ticket: None,
        rendezvous: Some(1),
        music_dht: Some(2),
        catalog: Some(3),
        device_sync: Some(2),
    };
    let info = runtime_build_info(software, protocols);
    assert_eq!(info.software[1].name, "furumi-library");
    assert_eq!(info.software[1].version, "2.0");
    assert_eq!(info.protocols[1].version, "unknown");
    assert_eq!(info.protocols[5].version, "1");
    assert_eq!(info.protocols[6].version, "2 · accepts v1");
}

#[test]
fn the_home_directory_is_written_out() {
    assert_eq!(expand_tilde("~", Some("/home/me")), "/home/me");
    assert_eq!(expand_tilde("~/Music", Some("/home/me")), "/home/me/Music");
    assert_eq!(expand_tilde("~/Music", Some("/home/me/")), "/home/me/Music");
    assert_eq!(expand_tilde("~//tmp", Some("/home/me")), "/tmp");
    assert_eq!(expand_tilde("~you/Music", Some("/home/me")), "~you/Music");
    assert_eq!(expand_tilde("/srv", Some("/home/me")), "/srv");
    assert_eq!(expand_tilde("~/Music", None), "~/Music");
}

#[test]
fn the_clock_counts_milliseconds() {
    assert_eq!(milliseconds_of(None), 0);
    assert_eq!(milliseconds_of(Some((2, 345_678_901))), 2_345);
    assert_eq!(milliseconds_of(Some((u64::MAX, 0))), i64::MAX);
    assert!(unix_time_ms() > 1_600_000_000_000);
}

#[test]
fn peers_are_answered_with_consent_alone() {
    let found = || {
        let track = library_row(9);
        Ok(vec![(LocalMatch { track, score: 25, signature: [7; 16] }, "item-9".to_owned())])
    };
    let hits = answer_query(true, found()).unwrap();
    assert_eq!(hits.len(), 1);
    assert_eq!(hits[0].item_id, "item-9");
    assert_eq!((hits[0].score, hits[0].duration_seconds), (25, Some(60)));
    assert_eq!(hits[0].artist_names, vec!["Artist".to_owned()]);
    assert_eq!(hits[0].embedding_signature, Some([7; 16]));
    assert_eq!(
        answer_query(false, found()).err().as_deref(),
        Some("similarity federation is disabled or has no privacy consent")
    );
    assert_eq!(
        answer_query(true, Err("no model".into())).err().as_deref(),
        Some("similarity query is unavailable: no model")
    );
}

#[test]
fn the_network_is_asked_with_consent_alone() {
    let mut settings = SimilaritySettingsSnapshot::default();
    for (enabled, federation_consent) in [(true, true), (true, false), (false, true)] {
        settings.enabled = enabled;
        settings.federation_consent = federation_consent;
        assert_eq!(network_allowed(&settings), enabled && federation_consent);
    }
}

#[test]
fn a_lock_file_names_versions() {
    let lock = "version = 4\n\n[[package]]\nname = \"serde\"\nversion = \"1.0.2\"\n\n\
        [[package]]\n  name = \"music-dht\"\r\n  version = \"0.3.1\"\n\n\
        [[package]]\nname = \"bare\"\n\n[[package]]\nname = \"bare\"\nversion = \"2\"\n";
    assert_eq!(package_version(lock, "music-dht").as_deref(), Some("0.3.1"));
    assert_eq!(package_version(lock, "serde").as_deref(), Some("1.0.2"));
    assert_eq!(package_version(lock, "bare").as_deref(), Some("2"));
    assert_eq!(package_version(lock, "music"), None);
    assert_eq!(package_version("", "serde"), None);
}
