//! The settings as they are kept: one row, brought up to date step by step.
use crate::api::{
    normal_similarity, SettingsModel, SettingsSnapshot, SimilaritySettingsModel,
    SimilaritySettingsSnapshot,
};
use crate::text::{chars_of, same_str};
use crate::views::{opt_view, views};
use vstd::prelude::*;

verus! {

broadcast use crate::views::group_views;

/// The step that puts the platform's library path in place of the old default.
pub const PLATFORM_LIBRARY_PATH_MIGRATION: i64 = 4;

/// The settings as a row of plain columns; flags are zero or not.
#[derive(Debug, PartialEq)]
pub struct SettingsRow {
    pub network_id: String,
    pub library_path: String,
    pub federation_enabled: i64,
    pub language: String,
    pub save_federated_on_listen: i64,
    pub device_name: String,
    pub similarity_enabled: i64,
    pub similarity_model: String,
    pub similarity_profile: String,
    pub similarity_workers: i64,
    pub similarity_minimum_score_ppb: Option<i64>,
    pub similarity_max_tracks_per_artist: i64,
    pub similarity_federation_consent: i64,
    pub similarity_active_profile: Option<String>,
}

pub struct SettingsRowModel {
    pub network_id: Seq<char>,
    pub library_path: Seq<char>,
    pub federation_enabled: i64,
    pub language: Seq<char>,
    pub save_federated_on_listen: i64,
    pub device_name: Seq<char>,
    pub similarity_enabled: i64,
    pub similarity_model: Seq<char>,
    pub similarity_profile: Seq<char>,
    pub similarity_workers: i64,
    pub similarity_minimum_score_ppb: Option<i64>,
    pub similarity_max_tracks_per_artist: i64,
    pub similarity_federation_consent: i64,
    pub similarity_active_profile: Option<Seq<char>>,
}

impl View for SettingsRow {
    type V = SettingsRowModel;

    open spec fn view(&self) -> SettingsRowModel {
        SettingsRowModel {
            network_id: self.network_id@,
            library_path: self.library_path@,
            federation_enabled: self.federation_enabled,
            language: self.language@,
            save_federated_on_listen: self.save_federated_on_listen,
            device_name: self.device_name@,
            similarity_enabled: self.similarity_enabled,
            similarity_model: self.similarity_model@,
            similarity_profile: self.similarity_profile@,
            similarity_workers: self.similarity_workers,
            similarity_minimum_score_ppb: self.similarity_minimum_score_ppb,
            similarity_max_tracks_per_artist: self.similarity_max_tracks_per_artist,
            similarity_federation_consent: self.similarity_federation_consent,
            similarity_active_profile: opt_view(self.similarity_active_profile),
        }
    }
}

/// The row, and the steps that were taken.
#[derive(Debug, PartialEq)]
pub struct SettingsStore {
    pub row: SettingsRow,
    pub applied: Vec<i64>,
}

pub struct SettingsStoreModel {
    pub row: SettingsRowModel,
    pub applied: Seq<i64>,
}

impl View for SettingsStore {
    type V = SettingsStoreModel;

    open spec fn view(&self) -> SettingsStoreModel {
        SettingsStoreModel {
            row: self.row@,
            applied: self.applied@,
        }
    }
}

/// A count as it is kept; one where it is no count.
pub open spec fn kept_count(n: i64) -> usize {
    if 0 <= n <= usize::MAX {
        n as usize
    } else {
        1
    }
}

/// What a row says. The similarity settings are put into their ranges.
pub open spec fn loaded(row: SettingsRowModel) -> SettingsModel {
    SettingsModel {
        network_id: row.network_id,
        device_name: row.device_name,
        library_path: row.library_path,
        federation_enabled: row.federation_enabled != 0,
        save_federated_on_listen: row.save_federated_on_listen != 0,
        language: row.language,
        similarity: normal_similarity(
            SimilaritySettingsModel {
                enabled: row.similarity_enabled != 0,
                model: row.similarity_model,
                profile: row.similarity_profile,
                workers: kept_count(row.similarity_workers),
                minimum_score_ppb: row.similarity_minimum_score_ppb,
                max_tracks_per_artist: kept_count(row.similarity_max_tracks_per_artist),
                federation_consent: row.similarity_federation_consent != 0,
                active_profile: row.similarity_active_profile,
            },
        ),
    }
}

pub open spec fn flag(b: bool) -> i64 {
    if b {
        1
    } else {
        0
    }
}

pub open spec fn column(n: usize, otherwise: i64) -> i64 {
    if n <= i64::MAX {
        n as i64
    } else {
        otherwise
    }
}

/// The row that says what the settings are.
pub open spec fn saved(settings: SettingsModel) -> SettingsRowModel {
    SettingsRowModel {
        network_id: settings.network_id,
        library_path: settings.library_path,
        federation_enabled: flag(settings.federation_enabled),
        language: settings.language,
        save_federated_on_listen: flag(settings.save_federated_on_listen),
        device_name: settings.device_name,
        similarity_enabled: flag(settings.similarity.enabled),
        similarity_model: settings.similarity.model,
        similarity_profile: settings.similarity.profile,
        similarity_workers: column(settings.similarity.workers, 16),
        similarity_minimum_score_ppb: settings.similarity.minimum_score_ppb,
        similarity_max_tracks_per_artist: column(settings.similarity.max_tracks_per_artist, 50),
        similarity_federation_consent: flag(settings.similarity.federation_consent),
        similarity_active_profile: settings.similarity.active_profile,
    }
}

/// The row before any step: empty columns.
pub open spec fn blank_row() -> SettingsRowModel {
    SettingsRowModel {
        network_id: Seq::empty(),
        library_path: Seq::empty(),
        federation_enabled: 0,
        language: Seq::empty(),
        save_federated_on_listen: 0,
        device_name: Seq::empty(),
        similarity_enabled: 0,
        similarity_model: Seq::empty(),
        similarity_profile: Seq::empty(),
        similarity_workers: 0,
        similarity_minimum_score_ppb: None,
        similarity_max_tracks_per_artist: 0,
        similarity_federation_consent: 0,
        similarity_active_profile: None,
    }
}

/// Whether a path was never chosen: the old default, or nothing but spaces.
pub open spec fn is_unchosen(path: Seq<char>) -> bool {
    path == "~/Music/Furumi"@ || forall|i: int| 0 <= i < path.len() ==> #[trigger] path[i] == ' '
}

/// What one step does to the row.
pub open spec fn migrated(
    row: SettingsRowModel,
    version: i64,
    library_path: Seq<char>,
    workers: usize,
) -> SettingsRowModel {
    if version == 1 {
        SettingsRowModel {
            network_id: "furumi"@,
            library_path: "~/Music/Furumi"@,
            federation_enabled: 1,
            language: "English"@,
            ..row
        }
    } else if version == 2 {
        SettingsRowModel { save_federated_on_listen: 1, ..row }
    } else if version == 3 {
        SettingsRowModel { device_name: Seq::empty(), ..row }
    } else if version == 5 {
        SettingsRowModel {
            similarity_enabled: 0,
            similarity_model: "discogs-effnet-bsdynamic-1"@,
            similarity_profile: "furumi-full-track-v1"@,
            similarity_workers: column(workers, 1),
            similarity_minimum_score_ppb: Some(700_000_000),
            similarity_max_tracks_per_artist: 5,
            similarity_federation_consent: 0,
            similarity_active_profile: None,
            ..row
        }
    } else if version == PLATFORM_LIBRARY_PATH_MIGRATION && is_unchosen(row.library_path) {
        SettingsRowModel { library_path, ..row }
    } else {
        row
    }
}

impl SettingsStoreModel {
    /// The store after a step, unless it was taken before.
    pub open spec fn stepped(self, version: i64, library_path: Seq<char>, workers: usize) -> Self {
        if self.applied.contains(version) {
            self
        } else {
            SettingsStoreModel {
                row: migrated(self.row, version, library_path, workers),
                applied: self.applied.push(version),
            }
        }
    }

    /// The store with all steps taken, each in its turn.
    pub open spec fn up_to_date(self, library_path: Seq<char>, workers: usize) -> Self {
        self.stepped(1, library_path, workers).stepped(2, library_path, workers).stepped(
            3,
            library_path,
            workers,
        ).stepped(5, library_path, workers).stepped(
            PLATFORM_LIBRARY_PATH_MIGRATION,
            library_path,
            workers,
        )
    }
}

fn count_from(n: i64) -> (r: usize)
    ensures
        r == kept_count(n),
{
    if n < 0 || n as u64 > usize::MAX as u64 {
        1
    } else {
        n as usize
    }
}

fn flag_of(b: bool) -> (r: i64)
    ensures
        r == flag(b),
{
    if b {
        1
    } else {
        0
    }
}

fn column_of(n: usize, otherwise: i64) -> (r: i64)
    ensures
        r == column(n, otherwise),
{
    if n as u64 <= i64::MAX as u64 {
        n as i64
    } else {
        otherwise
    }
}

fn never_chosen(path: &str) -> (r: bool)
    ensures
        r == is_unchosen(path@),
{
    if same_str(path, "~/Music/Furumi") {
        return true;
    }
    let chars = chars_of(path);
    let mut i: usize = 0;
    while i < chars.len()
        invariant
            i <= chars.len(),
            chars@ == path@,
            path@ != "~/Music/Furumi"@,
            forall|j: int| 0 <= j < i ==> #[trigger] path@[j] == ' ',
        decreases chars.len() - i,
    {
        if chars[i] != ' ' {
            assert(path@[i as int] != ' ');
            return false;
        }
        i += 1;
    }
    true
}

impl SettingsStore {
    /// A store in which no step was taken.
    pub fn empty() -> (r: Self)
        ensures
            r@ == (SettingsStoreModel { row: blank_row(), applied: Seq::empty() }),
    {
        SettingsStore {
            row: SettingsRow {
                network_id: String::new(),
                library_path: String::new(),
                federation_enabled: 0,
                language: String::new(),
                save_federated_on_listen: 0,
                device_name: String::new(),
                similarity_enabled: 0,
                similarity_model: String::new(),
                similarity_profile: String::new(),
                similarity_workers: 0,
                similarity_minimum_score_ppb: None,
                similarity_max_tracks_per_artist: 0,
                similarity_federation_consent: 0,
                similarity_active_profile: None,
            },
            applied: Vec::new(),
        }
    }

    fn step(&mut self, version: i64, library_path: &str, workers: usize)
        ensures
            final(self)@ == old(self)@.stepped(version, library_path@, workers),
    {
        let mut i: usize = 0;
        while i < self.applied.len()
            invariant
                *self == *old(self),
                i <= self.applied.len(),
                forall|j: int| 0 <= j < i ==> #[trigger] self.applied@[j] != version,
            decreases self.applied.len() - i,
        {
            if self.applied[i] == version {
                assert(self@.applied.contains(version)) by {
                    assert(self.applied@[i as int] == version);
                }
                return;
            }
            i += 1;
        }
        assert(!self@.applied.contains(version));
        if version == 1 {
            self.row.network_id = "furumi".to_owned();
            self.row.library_path = "~/Music/Furumi".to_owned();
            self.row.federation_enabled = 1;
            self.row.language = "English".to_owned();
        } else if version == 2 {
            self.row.save_federated_on_listen = 1;
        } else if version == 3 {
            self.row.device_name = String::new();
        } else if version == 5 {
            self.row.similarity_enabled = 0;
            self.row.similarity_model = "discogs-effnet-bsdynamic-1".to_owned();
            self.row.similarity_profile = "furumi-full-track-v1".to_owned();
            self.row.similarity_workers = column_of(workers, 1);
            self.row.similarity_minimum_score_ppb = Some(700_000_000);
            self.row.similarity_max_tracks_per_artist = 5;
            self.row.similarity_federation_consent = 0;
            self.row.similarity_active_profile = None;
        } else if version == PLATFORM_LIBRARY_PATH_MIGRATION && never_chosen(
            self.row.library_path.as_str(),
        ) {
            self.row.library_path = library_path.to_owned();
        }
        self.applied.push(version);
    }

    /// Takes the steps that were not taken yet.
    pub fn migrate(&mut self, default_library_path: &str, default_workers: usize)
        ensures
            final(self)@ == old(self)@.up_to_date(default_library_path@, default_workers),
    {
        self.step(1, default_library_path, default_workers);
        self.step(2, default_library_path, default_workers);
        self.step(3, default_library_path, default_workers);
        self.step(5, default_library_path, default_workers);
        self.step(PLATFORM_LIBRARY_PATH_MIGRATION, default_library_path, default_workers);
    }

    /// What the settings are.
    pub fn load(&self) -> (r: SettingsSnapshot)
        ensures
            r@ == loaded(self@.row),
    {
        let similarity = SimilaritySettingsSnapshot {
            enabled: self.row.similarity_enabled != 0,
            model: self.row.similarity_model.clone(),
            profile: self.row.similarity_profile.clone(),
            workers: count_from(self.row.similarity_workers),
            minimum_score_ppb: self.row.similarity_minimum_score_ppb,
            max_tracks_per_artist: count_from(self.row.similarity_max_tracks_per_artist),
            federation_consent: self.row.similarity_federation_consent != 0,
            active_profile: self.row.similarity_active_profile.clone(),
        };
        SettingsSnapshot {
            network_id: self.row.network_id.clone(),
            device_name: self.row.device_name.clone(),
            library_path: self.row.library_path.clone(),
            federation_enabled: self.row.federation_enabled != 0,
            save_federated_on_listen: self.row.save_federated_on_listen != 0,
            language: self.row.language.clone(),
            similarity: similarity.normalized(),
        }
    }

    /// Keeps the settings.
    pub fn save(&mut self, settings: &SettingsSnapshot)
        ensures
            final(self)@ == (SettingsStoreModel { row: saved(settings@), ..old(self)@ }),
    {
        self.row = SettingsRow {
            network_id: settings.network_id.clone(),
            library_path: settings.library_path.clone(),
            federation_enabled: flag_of(settings.federation_enabled),
            language: settings.language.clone(),
            save_federated_on_listen: flag_of(settings.save_federated_on_listen),
            device_name: settings.device_name.clone(),
            similarity_enabled: flag_of(settings.similarity.enabled),
            similarity_model: settings.similarity.model.clone(),
            similarity_profile: settings.similarity.profile.clone(),
            similarity_workers: column_of(settings.similarity.workers, 16),
            similarity_minimum_score_ppb: settings.similarity.minimum_score_ppb,
            similarity_max_tracks_per_artist: column_of(
                settings.similarity.max_tracks_per_artist,
                50,
            ),
            similarity_federation_consent: flag_of(settings.similarity.federation_consent),
            similarity_active_profile: settings.similarity.active_profile.clone(),
        };
    }
}

/// Settings that were saved are loaded as they were, the similarity settings in
/// their ranges.
pub proof fn settings_read_back(settings: SettingsModel)
    ensures
        loaded(saved(settings)) == (SettingsModel {
            similarity: normal_similarity(settings.similarity),
            ..settings
        }),
        settings.similarity.is_normalized() ==> loaded(saved(settings)) == settings,
{
}

/// A path that the listener chose survives every step, however often the steps
/// are taken.
pub proof fn a_chosen_path_stays(store: SettingsStoreModel, library_path: Seq<char>, workers: usize)
    requires
        store.applied.contains(1),
        !is_unchosen(store.row.library_path),
    ensures
        store.up_to_date(library_path, workers).row.library_path == store.row.library_path,
{
    lemma_steps_are_remembered(store, 2, library_path, workers);
}

proof fn lemma_steps_are_remembered(
    store: SettingsStoreModel,
    version: i64,
    library_path: Seq<char>,
    workers: usize,
)
    ensures
        store.stepped(version, library_path, workers).applied.contains(version),
        forall|v: i64|
            store.applied.contains(v) ==> #[trigger] store.stepped(
                version,
                library_path,
                workers,
            ).applied.contains(v),
{
    let after = store.stepped(version, library_path, workers);
    if !store.applied.contains(version) {
        assert(after.applied[store.applied.len() as int] == version);
        assert forall|v: i64| store.applied.contains(v) implies #[trigger] after.applied.contains(
            v,
        ) by {
            let i = choose|i: int| 0 <= i < store.applied.len() && store.applied[i] == v;
            assert(after.applied[i] == v);
        }
    }
}

/// Once all steps were taken, taking them again changes nothing.
pub proof fn steps_are_taken_once(
    store: SettingsStoreModel,
    library_path: Seq<char>,
    workers: usize,
    other_path: Seq<char>,
    other_workers: usize,
)
    ensures
        store.up_to_date(library_path, workers).up_to_date(other_path, other_workers)
            == store.up_to_date(library_path, workers),
{
    let a = store.stepped(1, library_path, workers);
    let b = a.stepped(2, library_path, workers);
    let c = b.stepped(3, library_path, workers);
    let d = c.stepped(5, library_path, workers);
    lemma_steps_are_remembered(store, 1, library_path, workers);
    lemma_steps_are_remembered(a, 2, library_path, workers);
    lemma_steps_are_remembered(b, 3, library_path, workers);
    lemma_steps_are_remembered(c, 5, library_path, workers);
    lemma_steps_are_remembered(d, PLATFORM_LIBRARY_PATH_MIGRATION, library_path, workers);
}

} // verus!
