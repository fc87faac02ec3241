//! The settings and how they are kept.
use furumi::api::SimilaritySettingsSnapshot;
use furumi::settings::SettingsStore;

fn default_workers() -> usize {
    SimilaritySettingsSnapshot::default().workers
}

fn in_memory(default_library_path: &str) -> SettingsStore {
    let mut store = SettingsStore::empty();
    store.migrate(default_library_path, default_workers());
    store
}

#[test]
fn migration_creates_defaults_and_settings_round_trip() {
    let default_library_path = "/platform/furumi/federation-media";
    let mut store = in_memory(default_library_path);
    let mut settings = store.load();
    assert_eq!(settings.network_id, "furumi");
    assert_eq!(settings.library_path, default_library_path);
    assert!(settings.federation_enabled);
    assert!(settings.save_federated_on_listen);
    assert!(settings.device_name.is_empty());
    assert!(!settings.similarity.enabled);
    assert_eq!(
        settings.similarity.workers,
        SimilaritySettingsSnapshot::default().workers
    );
    assert_eq!(settings.similarity.minimum_score_ppb, Some(700_000_000));

    settings.network_id = "friends".into();
    settings.device_name = "Studio Mac".into();
    settings.library_path = "/music/library".into();
    settings.federation_enabled = false;
    settings.similarity.enabled = true;
    settings.similarity.workers = 7;
    settings.similarity.minimum_score_ppb = Some(820_000_000);
    settings.similarity.max_tracks_per_artist = 9;
    settings.similarity.federation_consent = true;
    settings.similarity.active_profile = Some("sim1:test".into());
    store.save(&settings);

    assert_eq!(store.load(), settings);
}

#[test]
fn platform_default_migration_preserves_a_custom_library_path() {
    let mut store = in_memory("/first/furumi/federation-media");
    let mut settings = store.load();
    settings.library_path = "/custom/music".into();
    store.save(&settings);
    store
        .applied
        .retain(|version| *version != furumi::settings::PLATFORM_LIBRARY_PATH_MIGRATION);

    store.migrate("/second/furumi/federation-media", default_workers());

    assert_eq!(store.load().library_path, "/custom/music");
}

#[test]
fn the_platform_path_is_taken_where_none_was_chosen() {
    let mut store = in_memory("/first");
    store
        .applied
        .retain(|version| *version != furumi::settings::PLATFORM_LIBRARY_PATH_MIGRATION);
    let mut settings = store.load();
    settings.library_path = String::new();
    store.save(&settings);
    store.migrate("/second", default_workers());
    assert_eq!(store.load().library_path, "/second");
}

#[test]
fn migrating_again_changes_nothing() {
    let mut store = in_memory("/first");
    let before = store.load();
    store.migrate("/second", default_workers() + 1);
    assert_eq!(store.load(), before);
}

#[test]
fn similarity_settings_are_kept_in_bounds() {
    let wild = SimilaritySettingsSnapshot {
        enabled: true,
        model: "  ".into(),
        profile: String::new(),
        workers: 900,
        minimum_score_ppb: None,
        max_tracks_per_artist: 0,
        federation_consent: false,
        active_profile: None,
    };
    let tame = wild.normalized();
    let defaults = SimilaritySettingsSnapshot::default();
    assert_eq!(tame.model, defaults.model);
    assert_eq!(tame.profile, defaults.profile);
    assert!(tame.workers <= 16 && tame.workers > 0);
    assert!(tame.max_tracks_per_artist > 0);
    assert!(tame.minimum_score_ppb.is_some());
    assert_eq!(tame.clone().normalized(), tame);
    assert_eq!(SimilaritySettingsSnapshot::for_parallelism(None), defaults);
}
