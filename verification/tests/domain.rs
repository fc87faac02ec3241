//! Tracks, their keys and the queue.
use furumi::catalog::{
    normalized_catalog_text, ArtistId, ArtistKey, ArtistRef, AudioSource, ContentId, InvalidContentId, LocalTrackId,
    ReleaseId, ReleaseKey, Track, TrackKey,
};
use furumi::queue::{seed_of, shuffle_seed, Queue, QueueItemId};
use furumi::text::{sanitize_filename, trim};

fn track(id: i64) -> Track {
    Track {
        key: TrackKey::local(LocalTrackId::new(id)),
        title: id.to_string(),
        artist: "artist".into(),
        artists: vec![ArtistRef {
            key: ArtistKey::local(ArtistId::new(1)),
            name: "artist".into(),
        }],
        featured_artists: Vec::new(),
        release: "release".into(),
        release_id: ReleaseKey::local(ReleaseId::new(1)),
        duration_nanos: 180_000_000_000,
        track_number: Some(u32::try_from(id).unwrap()),
        disc_number: Some(1),
        cover_uri: None,
        audio_format: Some("FLAC".into()),
        audio_bitrate_kbps: Some(900),
        audio_sample_rate_hz: Some(44_100),
        audio_bit_depth: Some(16),
        file_size_bytes: None,
        liked: false,
        audio_source: AudioSource::LocalFile(format!("track-{id}.flac")),
    }
}

fn tracks(ids: std::ops::RangeInclusive<i64>) -> Vec<Track> {
    ids.map(track).collect()
}

fn ids(queue: &Queue) -> Vec<i64> {
    queue
        .items()
        .iter()
        .map(|item| item.track.key.local_id().unwrap().get())
        .collect()
}

fn content(digit: &str) -> ContentId {
    ContentId::parse(&format!("b3:{}", digit.repeat(64))).unwrap()
}

#[test]
fn sequential_play_next_additions_form_a_fifo_block() {
    let mut queue = Queue::default();
    queue.replace_context(tracks(10..=13), 0);
    queue.add_next(vec![track(1)]);
    queue.add_next(vec![track(2)]);
    queue.add_next(vec![track(3)]);

    assert_eq!(ids(&queue), vec![10, 1, 2, 3, 11, 12, 13]);
}

#[test]
fn replacing_context_keeps_order_and_starts_at_selected_track() {
    let mut queue = Queue::default();
    queue.replace_context(tracks(10..=13), 2);

    assert_eq!(ids(&queue), vec![10, 11, 12, 13]);
    assert_eq!(queue.current_index(), Some(2));
    assert_eq!(
        queue.current().unwrap().track.key.local_id().unwrap().get(),
        12
    );
}

#[test]
fn shuffle_preserves_current_track_and_can_restore_the_tail() {
    let mut queue = Queue::default();
    queue.replace_context(tracks(1..=8), 2);
    let current = queue.current().unwrap().id;

    queue.shuffle_upcoming();

    assert_eq!(queue.current().unwrap().id, current);
    let mut shuffled_tail = ids(&queue)[3..].to_vec();
    shuffled_tail.sort_unstable();
    assert_eq!(shuffled_tail, vec![4, 5, 6, 7, 8]);

    queue.restore_upcoming_order();
    assert_eq!(ids(&queue), vec![1, 2, 3, 4, 5, 6, 7, 8]);
}

#[test]
fn catalog_track_matching_falls_back_to_album_position() {
    let local = track(1);
    let content_id = ContentId::parse(&format!("b3:{}", "a".repeat(64))).unwrap();
    let mut federated = local.clone();
    federated.key = TrackKey::federation(
        "peer".into(),
        "remote-item".into(),
        Some(content_id.clone()),
    );
    federated.audio_source = AudioSource::Federation {
        peer_id: "peer".into(),
        content_id,
    };

    assert!(local.same_catalog_track(&federated));

    federated.track_number = Some(2);
    assert!(!local.same_catalog_track(&federated));
}

#[test]
fn content_id_matches_furumi_wire_format() {
    let id = ContentId::parse(&format!("B3:{}", "A".repeat(64))).unwrap();
    assert_eq!(id.as_str(), format!("b3:{}", "a".repeat(64)));
    assert!(ContentId::parse("track-1").is_err());
}

#[test]
fn catalog_keys_keep_local_and_federated_entities_distinct() {
    let local = ReleaseKey::local(ReleaseId::new(7));
    let remote = ReleaseKey::Federation {
        peer_id: "peer-a".into(),
        id: "7".into(),
    };

    assert_ne!(local, remote);

    let content = ContentId::parse(&format!("b3:{}", "a".repeat(64))).unwrap();
    let first = TrackKey::federation("peer-a".into(), "item-1".into(), Some(content.clone()));
    let same_audio_elsewhere =
        TrackKey::federation("peer-b".into(), "item-9".into(), Some(content));
    let other = TrackKey::federation("peer-a".into(), "item-2".into(), None);
    assert!(first.matches(&same_audio_elsewhere));
    assert!(!first.matches(&other));
}

#[test]
fn content_ids_that_are_no_digest_are_refused() {
    assert_eq!(ContentId::parse(""), Err(InvalidContentId));
    assert_eq!(ContentId::parse(&format!("b3:{}", "a".repeat(63))), Err(InvalidContentId));
    assert_eq!(ContentId::parse(&format!("b3:{}g", "a".repeat(63))), Err(InvalidContentId));
    assert_eq!(ContentId::parse(&format!("b4:{}", "a".repeat(64))), Err(InvalidContentId));
    assert_eq!(ContentId::parse(&format!(" b3:{}", "a".repeat(64))), Err(InvalidContentId));
    assert!(!InvalidContentId.message().is_empty());
}

#[test]
fn parsing_a_parsed_content_id_changes_nothing() {
    let id = content("F");
    assert_eq!(ContentId::parse(id.as_str()), Ok(id.clone()));
}

#[test]
fn keys_match_by_what_they_share() {
    let local = TrackKey::local(LocalTrackId::new(1));
    let both = TrackKey::new(LocalTrackId::new(1), content("1"));
    let remote = TrackKey::remote(content("1"));
    assert!(local.matches(&both));
    assert!(both.matches(&remote));
    assert!(!local.matches(&remote));
    assert!(!local.matches(&TrackKey::local(LocalTrackId::new(2))));
}

#[test]
fn an_empty_queue_has_no_current_item() {
    let mut queue = Queue::default();
    assert!(queue.current().is_none());
    assert!(queue.advance().is_none());
    assert!(queue.previous().is_none());
    queue.replace_context(Vec::new(), 3);
    assert_eq!(queue.current_index(), None);
    queue.add_to_end(tracks(1..=2));
    assert_eq!(ids(&queue), vec![1, 2]);
}

#[test]
fn walking_the_queue_ends_at_its_ends() {
    let mut queue = Queue::default();
    queue.replace_context(tracks(1..=3), 1);
    assert_eq!(queue.advance().unwrap().track.title, "3");
    assert!(queue.advance().is_none());
    assert_eq!(queue.current_index(), Some(2));
    assert_eq!(queue.previous().unwrap().track.title, "2");
    assert_eq!(queue.previous().unwrap().track.title, "1");
    queue.previous();
    assert_eq!(queue.current_index(), Some(0));
}

#[test]
fn items_are_found_by_their_number_alone() {
    let mut queue = Queue::default();
    queue.replace_context(tracks(1..=3), 0);
    let last = queue.items()[2].id;
    assert_eq!(queue.select_item(last).unwrap().track.title, "3");
    assert_eq!(queue.current_index(), Some(2));
    assert!(queue.select_item(QueueItemId::new(999)).is_none());
    assert_eq!(queue.current_index(), None);
    assert!(queue.select_index(7).is_none());
    assert_eq!(queue.select_index(1).unwrap().track.title, "2");
}

#[test]
fn item_numbers_are_never_used_again() {
    let mut queue = Queue::default();
    queue.replace_context(tracks(1..=2), 0);
    let mut seen: Vec<u64> = queue.items().iter().map(|item| item.id.get()).collect();
    queue.replace_context(tracks(1..=2), 0);
    queue.add_to_end(tracks(3..=3));
    for item in queue.items() {
        assert!(!seen.contains(&item.id.get()));
        seen.push(item.id.get());
    }
}

#[test]
fn a_seed_fixes_the_shuffle() {
    let mut one = Queue::default();
    one.replace_context(tracks(1..=8), 0);
    let mut other = Queue::default();
    other.replace_context(tracks(1..=8), 0);
    one.shuffle_upcoming_from(77);
    other.shuffle_upcoming_from(77);
    assert_eq!(ids(&one), ids(&other));
    assert_eq!(ids(&one)[0], 1);
}

#[test]
fn the_seed_of_the_clock_is_not_zero() {
    assert_ne!(furumi::queue::shuffle_seed(), 0);
}

#[test]
fn replacing_a_track_keeps_the_others() {
    let mut queue = Queue::default();
    queue.replace_context(tracks(1..=3), 0);
    let mut better = track(2);
    better.title = "better".into();
    queue.replace_matching_track(&better);
    let titles: Vec<&str> = queue.items().iter().map(|item| item.track.title.as_str()).collect();
    assert_eq!(titles, vec!["1", "better", "3"]);
    queue.replace_track(&TrackKey::local(LocalTrackId::new(3)), &better);
    assert_eq!(queue.items()[2].track.title, "better");
}

#[test]
fn texts_are_compared_without_case_and_white_space() {
    assert_eq!(normalized_catalog_text("  ÄRGER "), "ärger");
    let mut shouting = track(1);
    shouting.release = "RELEASE".into();
    shouting.key = TrackKey::federation("peer".into(), "item".into(), None);
    assert!(track(1).same_catalog_track(&shouting));
}

#[test]
fn file_names_hold_no_separators() {
    assert!(!sanitize_filename("a/b\\c:d").contains(['/', '\\', ':']));
    assert!(sanitize_filename("Straße 7").contains("Straße"));
    assert_eq!(trim("\u{3000}x\t"), "x");
}

#[test]
fn items_move_and_leave_around_the_current_one() {
    let mut queue = Queue::default();
    queue.replace_context(tracks(1..=5), 2);
    let id = |queue: &Queue, index: usize| queue.items()[index].id;
    assert!(queue.move_item(id(&queue, 4), 0));
    assert_eq!(ids(&queue), vec![5, 1, 2, 3, 4]);
    assert_eq!(queue.current().unwrap().track.title, "3");
    assert!(queue.move_item(id(&queue, 0), 99));
    assert_eq!(ids(&queue), vec![1, 2, 3, 4, 5]);
    assert_eq!(queue.current_index(), Some(2));
    assert!(!queue.move_item(id(&queue, 1), 1));
    assert!(!queue.move_item(QueueItemId::new(999), 0));
    assert!(queue.move_item(id(&queue, 2), 0));
    assert_eq!(queue.current_index(), Some(0));

    assert_eq!(queue.remove_item(QueueItemId::new(999)), None);
    assert_eq!(queue.remove_item(id(&queue, 4)), Some(false));
    assert_eq!(ids(&queue), vec![3, 1, 2, 4]);
    assert_eq!(queue.remove_item(id(&queue, 0)), Some(true));
    assert_eq!(queue.current().unwrap().track.title, "1");
    queue.select_index(2);
    assert_eq!(queue.remove_item(id(&queue, 2)), Some(true));
    assert_eq!(queue.current().unwrap().track.title, "2");
    queue.remove_item(id(&queue, 0));
    assert_eq!(queue.current_index(), Some(0));
    assert_eq!(queue.remove_item(id(&queue, 0)), Some(true));
    assert_eq!(queue.current_index(), None);
}

#[test]
fn what_plays_next_stays_in_order_while_nothing_plays() {
    let mut queue = Queue::default();
    queue.add_next(vec![track(1)]);
    queue.add_next(vec![track(2)]);
    assert_eq!(ids(&queue), vec![1, 2]);
    assert_eq!(queue.current_index(), None);
}

fn queued_twice() -> Queue {
    let mut queue = Queue::default();
    queue.replace_context(vec![track(9), track(1), track(2), track(1)], 0);
    queue
}

#[test]
fn a_track_that_is_queued_twice_is_restored_at_both_places() {
    for seed in 1..=12 {
        let mut queue = queued_twice();
        let before: Vec<u64> = queue.items().iter().map(|item| item.id.get()).collect();
        queue.shuffle_upcoming_from(seed);
        queue.restore_upcoming_order();
        assert_eq!(ids(&queue), vec![9, 1, 2, 1]);
        let after: Vec<u64> = queue.items().iter().map(|item| item.id.get()).collect();
        assert_eq!(after, before);
    }
}

#[test]
fn moves_after_a_shuffle_are_undone_with_it() {
    let mut queue = queued_twice();
    queue.shuffle_upcoming_from(3);
    let last = queue.items()[3].id;
    assert!(queue.move_item(last, 1));
    queue.restore_upcoming_order();
    assert_eq!(ids(&queue), vec![9, 1, 2, 1]);
}

#[test]
fn a_context_that_came_shuffled_is_restored_with_its_copies() {
    let mut queue = queued_twice();
    queue.remember_order();
    queue.replace_shuffled_context(vec![track(9), track(1), track(1), track(2)], 0);
    queue.restore_upcoming_order();
    assert_eq!(ids(&queue), vec![9, 1, 2, 1]);
}

#[test]
fn different_recordings_are_different_tracks() {
    let published = |item: &str, digit: &str| {
        let mut track = track(1);
        track.key =
            TrackKey::federation(format!("peer-{item}"), item.into(), Some(content(digit)));
        track
    };
    assert!(!published("x", "a").same_catalog_track(&published("y", "b")));
    assert!(published("x", "a").same_catalog_track(&published("y", "a")));
}

#[test]
fn a_moment_fixes_the_seed() {
    assert_eq!(seed_of(None), 1);
    assert_eq!(seed_of(Some((4, 2))), 7);
    assert_eq!(seed_of(Some((1_700_000_000, 123_456_789))), (1_700_000_000 ^ 123_456_789) | 1);
    assert_eq!(shuffle_seed() & 1, 1);
}

#[test]
fn a_shuffled_context_is_restored_from_where_it_stands() {
    let mut queue = Queue::default();
    queue.replace_context(tracks(1..=6), 0);
    queue.remember_order();
    let mixed: Vec<Track> = [4, 6, 1, 5, 2, 3].into_iter().map(track).collect();
    queue.replace_shuffled_context(mixed, 1);
    assert_eq!(ids(&queue), vec![4, 6, 1, 5, 2, 3]);
    assert_eq!(queue.current_index(), Some(1));
    queue.advance();
    queue.restore_upcoming_order();
    assert_eq!(ids(&queue), vec![4, 6, 1, 2, 3, 5]);
    assert_eq!(queue.current_index(), Some(2));
    queue.restore_upcoming_order();
    assert_eq!(ids(&queue), vec![4, 6, 1, 2, 3, 5]);
}
