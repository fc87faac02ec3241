//! The listener's devices: how they meet and what they tell each other.
use furumi::actor::ListenEndReason;
use furumi::api::PlaybackRepeat;
use furumi::catalog::{
    ArtistKey, ArtistRef, AudioSource, ContentId, ReleaseKey, Track, TrackKey,
};
use furumi::device_pairing::{
    after_pair_attempt, default_device_name, pair_deadline, refused_attempt, unavailable_device,
    News, PairAttempt, PairReply, PairRequest, PairStep,
};
use furumi::device_records::{
    incoming_failure, new_listen_id, round_failure, sync_failure, target_failure, AddedTrack,
    SyncReply,
};
use furumi::device_store::{
    Identity, ItemState, Pairing, PairingStatus, StoreAction, DeviceSync, DEFAULT_INVITE_TTL_MS,
};
use furumi::sync_ops::{
    device_id_from, group_id_from, pair_request_id, pair_request_seed, payload_kind,
    requester_group_conflict, short_id, time_label, DeviceProfile, SyncOp, SyncOpPayload,
    SyncSnapshot, DEVICE_SYNC_PROTOCOL_VERSION,
};
use furumi::wire::{DevicePlayback, PlaybackCommand, PlaybackStateWire};

const NOW: i64 = 1_700_000_000_000;

fn identity(name: &str) -> Identity {
    Identity {
        device_id: format!("dev_{name}"),
        group_id: format!("grp_{name}"),
        name: name.into(),
        client_version: "0.1.0".into(),
    }
}

fn store(name: &str) -> DeviceSync {
    DeviceSync::create(identity(name), NOW)
}

fn profile(device_id: &str) -> DeviceProfile {
    DeviceProfile {
        device_id: device_id.into(),
        name: device_id.into(),
        client_version: "0.1.0".into(),
        protocol_version: DEVICE_SYNC_PROTOCOL_VERSION,
        endpoint_id: String::new(),
        endpoint_ticket: String::new(),
        revoked: false,
        revoke_cutoff_seq: None,
        updated_at_ms: NOW,
    }
}

fn no_news() -> News {
    News {
        devices: Vec::new(),
        vector: Vec::new(),
        ops: Vec::new(),
        snapshot: SyncSnapshot {
            likes: Vec::new(),
            unlikes: Vec::new(),
            playlists: Vec::new(),
            deleted_playlists: Vec::new(),
            removed_playlist_items: Vec::new(),
        },
        playback: None,
    }
}

fn content(digit: &str) -> String {
    format!("b3:{}", digit.repeat(64))
}

/// A stand-in for the digest of the network's invites.
fn digest(text: &str) -> String {
    blake3::hash(text.as_bytes()).to_hex().to_string()
}

fn request_id(invite_id: &str, device_id: &str) -> String {
    pair_request_id(&digest(&pair_request_seed(invite_id, device_id)))
}

fn shared_track() -> Track {
    let content_id = ContentId::parse(&format!("b3:{}", "a".repeat(64))).unwrap();
    Track {
        key: TrackKey::remote(content_id.clone()),
        title: "Shared listen".into(),
        artist: "Artist".into(),
        artists: vec![ArtistRef {
            key: ArtistKey::Federation {
                peer_id: "peer".into(),
                id: "artist".into(),
            },
            name: "Artist".into(),
        }],
        featured_artists: Vec::new(),
        release: "Release".into(),
        release_id: ReleaseKey::Federation {
            peer_id: "peer".into(),
            id: "release".into(),
        },
        duration_nanos: 180_000_000_000,
        track_number: Some(1),
        disc_number: Some(1),
        cover_uri: None,
        audio_format: None,
        audio_bitrate_kbps: None,
        audio_sample_rate_hz: None,
        audio_bit_depth: None,
        file_size_bytes: None,
        liked: false,
        audio_source: AudioSource::Federation {
            peer_id: "peer".into(),
            content_id,
        },
    }
}

#[test]
fn locally_finished_listen_enters_the_shared_history() {
    let mut sync = store("desktop");
    sync.record_listen(
        "desktop-listen".into(),
        &shared_track(),
        NOW,
        180_000,
        ListenEndReason::Finished,
        true,
        NOW,
    );

    let history: Vec<_> = sync
        .take_actions()
        .into_iter()
        .filter_map(|action| match action {
            StoreAction::RememberListen { event, .. } => Some(event),
            _ => None,
        })
        .take(10)
        .collect();
    assert_eq!(history.len(), 1);
    assert_eq!(history[0].listen_id, "desktop-listen");
    assert_eq!(history[0].track.title, "Shared listen");
}

#[test]
fn only_listens_that_count_are_recorded() {
    let mut sync = store("desktop");
    let skipped = ListenEndReason::Skipped;
    sync.record_listen("a".into(), &shared_track(), NOW, 1, skipped, false, NOW);
    assert!(sync.ops.is_empty());
    sync.record_listen("b".into(), &shared_track(), NOW, 600_000, skipped, true, NOW);
    assert_eq!(sync.ops.len(), 1);
}

fn insert_pending_pairing(sync: &mut DeviceSync, requester_group_devices: Vec<DeviceProfile>) {
    sync.pairings.push(Pairing {
        request_id: "request".into(),
        device_id: "dev_requester".into(),
        name: "Requester".into(),
        client_version: "0.1.0".into(),
        endpoint_id: String::new(),
        endpoint_ticket: String::new(),
        invite_id: "invite".into(),
        created_at_ms: NOW,
        answered_at_ms: None,
        status: PairingStatus::Pending,
        requester_group_id: Some("grp_remote".into()),
        requester_group_active_devices: 2,
        requester_devices: requester_group_devices,
        use_requester_group: false,
    });
}

fn device_known(sync: &DeviceSync, device_id: &str) -> bool {
    sync.devices.iter().any(|device| device.device_id == device_id)
}

fn device_trusted(sync: &DeviceSync, device_id: &str) -> bool {
    sync.devices
        .iter()
        .any(|device| device.device_id == device_id && device.trusted_at_ms.is_some())
}

#[test]
fn pairing_request_ids_are_stable_and_scoped_to_the_device() {
    assert_eq!(request_id("invite", "device"), request_id("invite", "device"));
    assert_ne!(request_id("invite", "device-a"), request_id("invite", "device-b"));
}

#[test]
fn group_choice_is_only_required_for_an_existing_different_group() {
    assert!(requester_group_conflict("grp_local", Some("grp_remote"), 2));
    assert!(!requester_group_conflict(
        "grp_local",
        Some("grp_remote"),
        1
    ));
    assert!(!requester_group_conflict("grp_local", Some("grp_local"), 3));
    assert!(!requester_group_conflict("grp_local", None, 3));
    assert!(!requester_group_conflict("grp_local", Some("  "), 3));
}

#[test]
fn pairing_choice_either_joins_the_requester_group_or_keeps_the_local_group() {
    let mut sync = store("local");
    let local_group = sync.identity.group_id.clone();
    insert_pending_pairing(&mut sync, vec![profile("dev_requester_peer")]);

    sync.answer_pairing("request", true, false, NOW);

    assert_eq!(sync.identity.group_id, local_group);
    assert!(device_trusted(&sync, "dev_requester"));
    assert!(!device_known(&sync, "dev_requester_peer"));

    let mut sync = store("local");
    insert_pending_pairing(&mut sync, vec![profile("dev_requester_peer")]);

    sync.answer_pairing("request", true, true, NOW);

    assert_eq!(sync.identity.group_id, "grp_remote");
    assert!(device_trusted(&sync, "dev_requester"));
    assert!(device_known(&sync, "dev_requester_peer"));
}

#[test]
fn a_denied_request_leaves_the_device_out() {
    let mut sync = store("local");
    insert_pending_pairing(&mut sync, vec![profile("dev_requester_peer")]);
    sync.answer_pairing("request", false, true, NOW);
    assert_eq!(sync.identity.group_id, "grp_local");
    assert!(!device_known(&sync, "dev_requester"));
    assert_eq!(sync.pairings[0].status, PairingStatus::Denied);
}

fn request(invite_id: &str, secret_hash: &str) -> PairRequest {
    PairRequest {
        request_id: request_id(invite_id, "dev_other"),
        invite_id: invite_id.into(),
        secret_hash: secret_hash.into(),
        profile: profile("dev_other"),
        group_id: Some("grp_other".into()),
        group_active_devices: 1,
        news: no_news(),
    }
}

#[test]
fn a_device_joins_with_an_invite_and_the_listeners_consent() {
    let mut sync = store("local");
    let expires = sync.create_invite("invite".into(), digest("secret"), NOW);
    assert_eq!(expires, NOW + DEFAULT_INVITE_TTL_MS);

    assert_eq!(
        sync.handle_pair_request(request("invite", &digest("guess")), NOW),
        PairReply::InvalidInvite
    );
    assert_eq!(
        sync.handle_pair_request(request("other", &digest("secret")), NOW),
        PairReply::InvalidInvite
    );
    assert_eq!(
        sync.handle_pair_request(request("invite", &digest("secret")), expires + 1),
        PairReply::InvalidInvite
    );
    assert_eq!(
        sync.handle_pair_request(request("invite", &digest("secret")), NOW),
        PairReply::Pending
    );
    assert!(!sync.is_trusted("dev_other"));
    assert_eq!(sync.status(NOW).pending.len(), 1);

    sync.answer_pairing(&request_id("invite", "dev_other"), true, false, NOW);
    assert_eq!(
        sync.handle_pair_request(request("invite", &digest("secret")), NOW),
        PairReply::Accepted { group_id: "grp_local".into() }
    );
    assert!(sync.is_trusted("dev_other"));
    assert_eq!(sync.active_device_count(), 2);
}

#[test]
fn refusals_say_whether_waiting_helps() {
    assert_eq!(PairReply::Accepted { group_id: "g".into() }.refusal(), None);
    let (pending, wait) = PairReply::Pending.refusal().unwrap();
    assert!(wait && !pending.is_empty());
    let (denied, wait) = PairReply::Denied.refusal().unwrap();
    assert!(!wait && !denied.is_empty());
    let (invalid, wait) = PairReply::InvalidInvite.refusal().unwrap();
    assert!(!wait && !invalid.is_empty());
}

#[test]
fn joining_waits_for_the_answer_until_the_deadline() {
    assert_eq!(pair_deadline(NOW, NOW - 1), Err("device invite expired".to_string()));
    assert_eq!(pair_deadline(NOW, NOW), Ok(NOW));
    let deadline = pair_deadline(NOW, NOW + DEFAULT_INVITE_TTL_MS).unwrap();
    assert!(deadline > NOW && deadline <= NOW + DEFAULT_INVITE_TTL_MS);
    assert_eq!(
        after_pair_attempt(refused_attempt(true, None), "dev_inviter", NOW, deadline),
        PairStep::Retry
    );
    assert!(matches!(
        after_pair_attempt(PairAttempt::Pending, "dev_inviter", deadline + 1, deadline),
        PairStep::GiveUp(_)
    ));
    assert!(matches!(
        after_pair_attempt(PairAttempt::Accepted, "dev_inviter", NOW, deadline),
        PairStep::Joined(_)
    ));
    assert!(matches!(
        after_pair_attempt(
            refused_attempt(false, Some("no".into())),
            "dev_inviter",
            NOW,
            deadline
        ),
        PairStep::GiveUp(_)
    ));
}

#[test]
fn only_trusted_devices_of_the_group_are_greeted_back() {
    let mut sync = store("local");
    let stranger = profile("dev_stranger");
    let refused = Some("device group mismatch or device is not trusted");
    assert_eq!(
        sync.handle_hello("grp_local", &stranger, "endpoint", no_news(), NOW),
        refused
    );
    assert!(!device_known(&sync, "dev_stranger"));
    sync.apply_device_profile(&profile("dev_friend"), true, NOW);
    assert_eq!(
        sync.handle_hello("grp_other", &profile("dev_friend"), "endpoint", no_news(), NOW),
        refused
    );
    assert_eq!(
        sync.handle_hello("grp_local", &profile("dev_friend"), "endpoint", no_news(), NOW),
        None
    );
    let reply = sync.hello_reply("dev_friend", "ticket", "endpoint_local", NOW);
    assert_eq!(reply.devices.len(), sync.news_for("dev_friend", NOW).devices.len() + 1);
    assert_eq!(reply.devices.last().map(|own| own.endpoint_ticket.as_str()), Some("ticket"));
}

fn op(origin: &str, seq: i64, hlc_ms: i64, payload: SyncOpPayload) -> SyncOp {
    SyncOp {
        op_id: format!("{origin}:{seq}"),
        origin_device_id: origin.into(),
        seq,
        hlc_ms,
        payload,
    }
}

fn like(origin: &str, seq: i64, hlc_ms: i64, liked: bool) -> SyncOp {
    op(
        origin,
        seq,
        hlc_ms,
        SyncOpPayload::TrackLikeSet { content_id: content("1"), liked, fed: None },
    )
}

#[test]
fn changes_of_strangers_are_not_taken() {
    let mut sync = store("local");
    sync.apply_ops(vec![like("dev_stranger", 1, NOW, true)], NOW);
    assert!(sync.likes.is_empty());
    sync.apply_device_profile(&profile("dev_friend"), true, NOW);
    sync.apply_ops(vec![like("dev_friend", 1, NOW, true)], NOW);
    assert_eq!(sync.likes.len(), 1);
    assert!(sync.likes[0].value);
}

#[test]
fn devices_agree_whatever_order_changes_come_in() {
    let list = |seq: i64, hlc: i64, title: &str| {
        op(
            "dev_a",
            seq,
            hlc,
            SyncOpPayload::PlaylistRenamed { playlist_id: "p".into(), title: title.into() },
        )
    };
    let mut one = store("x");
    one.store_and_apply_op(like("dev_a", 1, 10, true), NOW);
    one.store_and_apply_op(like("dev_b", 1, 12, false), NOW);
    one.store_and_apply_op(list(2, 11, "Old"), NOW);
    one.store_and_apply_op(list(3, 13, "New"), NOW);

    let mut other = store("y");
    other.store_and_apply_op(list(3, 13, "New"), NOW + 5);
    other.store_and_apply_op(like("dev_b", 1, 12, false), NOW + 6);
    other.store_and_apply_op(like("dev_a", 1, 10, true), NOW + 7);
    other.store_and_apply_op(list(2, 11, "Old"), NOW + 8);
    other.store_and_apply_op(like("dev_a", 1, 10, true), NOW + 9);

    assert_eq!(one.likes, other.likes);
    assert!(!one.likes[0].value);
    assert_eq!(one.playlists, other.playlists);
    assert_eq!(one.playlists[0].value.title, "New");
}

#[test]
fn a_change_counts_once() {
    let mut sync = store("local");
    let listen = || {
        op(
            "dev_a",
            1,
            NOW,
            SyncOpPayload::PlaybackCommand {
                target_device_id: "dev_local".into(),
                command: PlaybackCommand::SetState { state: idle_state(), seek: false },
            },
        )
    };
    sync.store_and_apply_op(listen(), NOW);
    sync.store_and_apply_op(listen(), NOW + 1);
    let obeyed = sync
        .take_actions()
        .iter()
        .filter(|action| matches!(action, StoreAction::ObeyCommand { .. }))
        .count();
    assert_eq!(obeyed, 1);
    assert_eq!(sync.ops.len(), 1);
}

fn idle_state() -> PlaybackStateWire {
    PlaybackStateWire {
        queue: Vec::new(),
        queue_pos: 0,
        playing: false,
        paused: false,
        idle_since_ms: None,
        position_nanos: 0,
        volume: 72,
        shuffle: false,
        repeat: PlaybackRepeat::Off,
    }
}

#[test]
fn own_changes_are_numbered_in_order() {
    let mut sync = store("local");
    sync.record_playlist_created("p", "Evening", 5_000);
    sync.record_playlist_renamed("p", "Night", 4_000);
    sync.record_playlist_tracks_added(
        "p",
        vec![
            AddedTrack { content_id: content("2"), position: 0, fed: None },
            AddedTrack { content_id: content("3"), position: 1, fed: None },
        ],
        4_000,
    );
    sync.record_playlist_removed("p", &vec![content("2"), "nonsense".into()], 4_000);
    sync.record_like(&content("3"), true, None, 4_000);
    sync.record_playback_command(
        "dev_other",
        PlaybackCommand::SetState { state: idle_state(), seek: true },
        4_000,
    );
    sync.record_playlist_deleted("p", 4_000);
    let seqs: Vec<i64> = sync.ops.iter().map(|stored| stored.op.seq).collect();
    assert_eq!(seqs, vec![1, 2, 3, 4, 5, 6, 7, 8]);
    assert_eq!(sync.ops[0].op.op_id, "dev_local:1");
    for pair in sync.ops.windows(2) {
        assert!(pair[0].op.hlc_ms < pair[1].op.hlc_ms);
    }
    let kinds: Vec<&str> = sync.ops.iter().map(|stored| payload_kind(&stored.op.payload)).collect();
    assert_eq!(kinds[0], "playlist_created");
    assert_eq!(kinds[7], "playlist_deleted");
    assert!(sync.playlists[0].value.deleted);
    assert_eq!(
        sync.items.iter().map(|item| item.value).collect::<Vec<_>>(),
        vec![
            ItemState { present: false, position: 0 },
            ItemState { present: true, position: 1 },
        ]
    );
    let vector = sync.vector();
    assert_eq!(vector.len(), 1);
    assert_eq!(vector[0].max_seq, 8);
}

#[test]
fn a_snapshot_brings_another_device_up_to_date() {
    let mut there = store("there");
    there.record_like(&content("1"), true, None, NOW);
    there.record_like(&content("2"), false, None, NOW);
    there.record_playlist_created("p", "Evening", NOW);
    there.record_playlist_tracks_added(
        "p",
        vec![AddedTrack { content_id: content("3"), position: 4, fed: None }],
        NOW,
    );
    there.record_playlist_created("q", "Gone", NOW);
    there.record_playlist_deleted("q", NOW);

    let mut here = store("here");
    here.apply_snapshot(there.snapshot());
    assert_eq!(here.likes.len(), 2);
    assert!(here.likes.iter().any(|like| like.key == content("1") && like.value));
    assert!(here.likes.iter().any(|like| like.key == content("2") && !like.value));
    assert!(here.playlists.iter().any(|list| list.key == "p" && list.value.title == "Evening"));
    assert!(here.playlists.iter().any(|list| list.key == "q" && list.value.deleted));
    assert_eq!(here.items[0].value, ItemState { present: true, position: 4 });
    let before = here.likes.len();
    here.apply_snapshot(there.snapshot());
    assert_eq!(here.likes.len(), before);
}

#[test]
fn peers_are_sent_what_they_lack() {
    let mut sync = store("local");
    sync.record_like(&content("1"), true, None, NOW);
    sync.record_like(&content("2"), true, None, NOW);
    assert_eq!(sync.ops_for_peer("dev_peer", NOW).len(), 2);
    let vector = sync.vector();
    sync.note_peer_vector("dev_peer", &vector, NOW);
    assert!(sync.ops_for_peer("dev_peer", NOW).is_empty());
}

#[test]
fn the_newest_playback_of_a_device_counts() {
    let mut sync = store("local");
    let playback = |at: i64, device: &str| DevicePlayback {
        device_id: device.into(),
        device_name: "Other".into(),
        active: true,
        updated_at_ms: at,
        state: idle_state(),
    };
    sync.apply_playback_snapshot(playback(5, "dev_other"));
    sync.apply_playback_snapshot(playback(4, "dev_other"));
    sync.apply_playback_snapshot(playback(9, "dev_local"));
    assert_eq!(sync.remote_playback.len(), 1);
    assert_eq!(sync.remote_playback[0].updated_at_ms, 5);
}

#[test]
fn a_new_name_is_told_where_the_device_can_be_reached() {
    let mut sync = store("local");
    sync.set_device_name("  Studio  ", None, NOW);
    assert_eq!(sync.identity.name, "Studio");
    assert!(sync.ops.is_empty());
    sync.set_device_name("Studio", Some(("ticket".into(), "endpoint".into())), NOW);
    assert_eq!(sync.ops.len(), 1);
    assert_eq!(payload_kind(&sync.ops[0].op.payload), "device_profile_set");
}

#[test]
fn failures_of_a_round_are_told_by_the_last_one() {
    assert_eq!(round_failure(&vec![]), None);
    assert_eq!(round_failure(&vec![None, None]), None);
    assert_eq!(
        round_failure(&vec![Some("a".into()), Some("b".into()), None]).as_deref(),
        Some("b")
    );
    assert_eq!(sync_failure(SyncReply::Accepted), None);
    assert_eq!(
        sync_failure(SyncReply::Refused { error: None }).as_deref(),
        Some("sync refused")
    );
    assert_eq!(
        sync_failure(SyncReply::Refused { error: Some("busy".into()) }).as_deref(),
        Some("busy")
    );
    assert_eq!(
        sync_failure(SyncReply::Unexpected).as_deref(),
        Some("unexpected sync response")
    );
    assert_eq!(target_failure("dev_0123456789", "gone"), "dev_012345: gone");
    assert_eq!(incoming_failure("gone"), "incoming sync: gone");
    assert_eq!(unavailable_device("dev_0123456789"), "device dev_012345 is unavailable");
}

#[test]
fn names_of_devices_and_groups_are_cut_from_digests() {
    let digest = "0123456789abcdef0123456789abcdef";
    assert_eq!(device_id_from(digest), "dev_0123456789abcdef01234567");
    assert_eq!(group_id_from(digest), "grp_0123456789abcdef01234567");
    assert_eq!(pair_request_id(digest), "pair_0123456789abcdef");
    assert_eq!(short_id("ab"), "ab");
    assert_eq!(new_listen_id(12, "ff00"), "12-ff00");
    assert_eq!(default_device_name("macos"), default_device_name("macos"));
    assert!(!default_device_name("linux").is_empty());
}

#[test]
fn times_of_day_are_in_universal_time() {
    assert_eq!(time_label(0), "00:00:00 UTC");
    assert_eq!(time_label(3_600_000 * 13 + 60_000 * 5 + 7_999), "13:05:07 UTC");
    assert_eq!(time_label(86_400_000), "00:00:00 UTC");
}

#[test]
fn blank_tracks_are_no_listens() {
    let mut sync = store("local");
    let mut track = shared_track();
    track.key = TrackKey::federation("peer".into(), "item".into(), None);
    sync.record_listen("x".into(), &track, NOW, 600_000, ListenEndReason::Finished, true, NOW);
    assert!(sync.ops.is_empty());
}
