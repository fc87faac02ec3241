//! Deterministic frontend state, its reducers, and what the player shows.
use crate::api::{
    BackendCommand, BackendSnapshot, PlaybackRepeat, PlaybackStatus, RemoteData, RequestId,
    SettingsSnapshot, UNIT,
};
use crate::catalog::{Artist, ArtistKey, ArtistKeyModel, ArtistRef, Release, ReleaseKey,
    ReleaseKeyModel, TrackKey};
use crate::queue::QueueItemId;
use crate::text::{decimal, decimal_text, two_digit_text, two_digits};
use vstd::prelude::*;

verus! {

#[derive(Debug, Clone, Copy, Default, PartialEq, Eq, Structural)]
pub enum Locale {
    #[default]
    En,
}

#[derive(Debug, Clone, Copy)]
pub struct Strings {
    pub app_name: &'static str,
    pub home: &'static str,
    pub search: &'static str,
    pub library: &'static str,
    pub queue: &'static str,
    pub recently_played: &'static str,
    pub made_for_listening: &'static str,
    pub empty_queue: &'static str,
    pub search_placeholder: &'static str,
}

impl Locale {
    pub fn strings(self) -> (r: Strings)
        ensures
            self == Locale::En ==> {
                &&& r.app_name@ == "Furumi"@
                &&& r.home@ == "Home"@
                &&& r.search@ == "Search"@
                &&& r.library@ == "Your library"@
                &&& r.queue@ == "Queue"@
                &&& r.recently_played@ == "Recently played"@
                &&& r.made_for_listening@ == "Made for listening"@
                &&& r.empty_queue@ == "Your queue is empty"@
                &&& r.search_placeholder@ == "Artists, albums or tracks"@
            },
    {
        match self {
            Locale::En => Strings {
                app_name: "Furumi",
                home: "Home",
                search: "Search",
                library: "Your library",
                queue: "Queue",
                recently_played: "Recently played",
                made_for_listening: "Made for listening",
                empty_queue: "Your queue is empty",
                search_placeholder: "Artists, albums or tracks",
            },
        }
    }
}

#[derive(Debug)]
pub enum Screen {
    Home,
    Search,
    Library,
    Artist(ArtistKey),
    Release(ReleaseKey, Option<ArtistKey>),
    Playlist(i64),
}

impl Screen {
    /// Whether two screens show the same thing.
    pub open spec fn same(self, other: Self) -> bool {
        match (self, other) {
            (Screen::Home, Screen::Home) => true,
            (Screen::Search, Screen::Search) => true,
            (Screen::Library, Screen::Library) => true,
            (Screen::Artist(a), Screen::Artist(b)) => a@ == b@,
            (Screen::Release(a, p), Screen::Release(b, q)) => a@ == b@ && match (p, q) {
                (Some(p), Some(q)) => p@ == q@,
                (None, None) => true,
                _ => false,
            },
            (Screen::Playlist(a), Screen::Playlist(b)) => a == b,
            _ => false,
        }
    }
}

impl Clone for Screen {
    fn clone(&self) -> (r: Self)
        ensures
            r == *self,
    {
        match self {
            Screen::Home => Screen::Home,
            Screen::Search => Screen::Search,
            Screen::Library => Screen::Library,
            Screen::Artist(key) => Screen::Artist(key.clone()),
            Screen::Release(key, preferred) => Screen::Release(key.clone(), preferred.clone()),
            Screen::Playlist(id) => Screen::Playlist(*id),
        }
    }
}

impl PartialEq for Screen {
    fn eq(&self, other: &Self) -> (r: bool) {
        match (self, other) {
            (Screen::Home, Screen::Home) => true,
            (Screen::Search, Screen::Search) => true,
            (Screen::Library, Screen::Library) => true,
            (Screen::Artist(a), Screen::Artist(b)) => *a == *b,
            (Screen::Release(a, p), Screen::Release(b, q)) => *a == *b && match (p, q) {
                (Some(p), Some(q)) => *p == *q,
                (None, None) => true,
                _ => false,
            },
            (Screen::Playlist(a), Screen::Playlist(b)) => *a == *b,
            _ => false,
        }
    }
}

impl vstd::std_specs::cmp::PartialEqSpecImpl for Screen {
    open spec fn obeys_eq_spec() -> bool {
        true
    }

    open spec fn eq_spec(&self, other: &Self) -> bool {
        self.same(*other)
    }
}

impl Eq for Screen {

}

impl Default for Screen {
    fn default() -> (r: Self)
        ensures
            r == Screen::Home,
    {
        Screen::Home
    }
}

#[derive(Debug, Clone, PartialEq, Eq)]
pub struct FrontendState {
    pub screen: Screen,
    pub navigation_history: Vec<Screen>,
    pub navigation_forward: Vec<Screen>,
    pub queue_open: bool,
    pub settings_open: bool,
    pub devices_open: bool,
    pub search_query: String,
    pub locale: Locale,
    pub track_info: Option<TrackKey>,
    pub playlist_picker_track: Option<TrackKey>,
}

pub struct FrontendModel {
    pub screen: Screen,
    pub navigation_history: Seq<Screen>,
    pub navigation_forward: Seq<Screen>,
    pub queue_open: bool,
    pub settings_open: bool,
    pub devices_open: bool,
    pub search_query: String,
    pub locale: Locale,
    pub track_info: Option<TrackKey>,
    pub playlist_picker_track: Option<TrackKey>,
}

impl View for FrontendState {
    type V = FrontendModel;

    open spec fn view(&self) -> FrontendModel {
        FrontendModel {
            screen: self.screen,
            navigation_history: self.navigation_history@,
            navigation_forward: self.navigation_forward@,
            queue_open: self.queue_open,
            settings_open: self.settings_open,
            devices_open: self.devices_open,
            search_query: self.search_query,
            locale: self.locale,
            track_info: self.track_info,
            playlist_picker_track: self.playlist_picker_track,
        }
    }
}

impl Default for FrontendState {
    fn default() -> (r: Self)
        ensures
            r@.screen == Screen::Home,
            r@.navigation_history.len() == 0,
            r@.navigation_forward.len() == 0,
            !r@.queue_open && !r@.settings_open && !r@.devices_open,
            r@.search_query@.len() == 0,
            r@.locale == Locale::En,
            r@.track_info is None,
            r@.playlist_picker_track is None,
    {
        FrontendState {
            screen: Screen::Home,
            navigation_history: Vec::new(),
            navigation_forward: Vec::new(),
            queue_open: false,
            settings_open: false,
            devices_open: false,
            search_query: String::new(),
            locale: Locale::En,
            track_info: None,
            playlist_picker_track: None,
        }
    }
}

#[derive(Debug, Clone, Default, PartialEq)]
pub struct AppState {
    pub frontend: FrontendState,
    pub backend: BackendSnapshot,
    pub next_request_id: u64,
    pub transient_error: Option<String>,
}

pub struct AppModel {
    pub frontend: FrontendModel,
    pub backend: BackendSnapshot,
    pub next_request_id: u64,
    pub transient_error: Option<String>,
}

impl View for AppState {
    type V = AppModel;

    open spec fn view(&self) -> AppModel {
        AppModel {
            frontend: self.frontend@,
            backend: self.backend,
            next_request_id: self.next_request_id,
            transient_error: self.transient_error,
        }
    }
}

#[derive(Debug, Clone, PartialEq)]
pub enum UiAction {
    Navigate(Screen),
    Back,
    Forward,
    ToggleQueue,
    ToggleSettings,
    ToggleDevices,
    TogglePlayback,
    Next,
    Previous,
    ToggleShuffle,
    CycleRepeat,
    Seek(u64),
    SetVolume(u32),
    PlayRelease { release_id: ReleaseKey, start: usize },
    PlayTrack(TrackKey),
    PlayQueueItem(QueueItemId),
    PlayContext { tracks: Vec<TrackKey>, selected: TrackKey },
    AddNext(Vec<TrackKey>),
    AddToEnd(Vec<TrackKey>),
    ToggleLike(TrackKey),
    ShowPlaylistPicker(TrackKey),
    ClosePlaylistPicker,
    CreatePlaylist(String),
    AddToPlaylist { playlist_id: i64, tracks: Vec<TrackKey> },
    CreateDeviceInvite,
    ConnectDevice(String),
    AnswerDevicePairing { request_id: String, accept: bool, use_requester_group: bool },
    SelectPlaybackDevice(String),
    SearchChanged(String),
    NetworkIdChanged(String),
    DeviceNameChanged(String),
    LibraryPathChanged(String),
    FederationChanged(bool),
    SaveFederatedOnListenChanged(bool),
    LanguageChanged(String),
    ShowTrackInfo(TrackKey),
    CloseTrackInfo,
    DismissError,
}

#[derive(Debug, Clone, PartialEq)]
pub enum AppEvent {
    BackendSnapshot(Box<BackendSnapshot>),
    CommandRejected(String),
}

#[derive(Debug, Clone, PartialEq)]
pub enum Effect {
    Send(BackendCommand),
}

/// The identifier after `id`; the last one repeats.
pub open spec fn following(id: u64) -> u64 {
    if id < u64::MAX {
        (id + 1) as u64
    } else {
        id
    }
}

/// Every artist the backend has shown, the library's first.
pub open spec fn shown_artists(backend: BackendSnapshot) -> Seq<Artist> {
    match backend.library {
        RemoteData::Ready(library) => library.artists@ + backend.search.results.artists@,
        _ => backend.search.results.artists@,
    }
}

/// Every release the backend has shown, the library's first.
pub open spec fn shown_releases(backend: BackendSnapshot) -> Seq<Release> {
    match backend.library {
        RemoteData::Ready(library) => library.featured_releases@
            + backend.search.results.releases@,
        _ => backend.search.results.releases@,
    }
}

pub open spec fn first_artist(s: Seq<Artist>, key: ArtistKeyModel) -> Option<Artist>
    decreases s.len(),
{
    if s.len() == 0 {
        None
    } else if s[0].key@ == key {
        Some(s[0])
    } else {
        first_artist(s.drop_first(), key)
    }
}

pub open spec fn first_release(s: Seq<Release>, key: ReleaseKeyModel) -> Option<Release>
    decreases s.len(),
{
    if s.len() == 0 {
        None
    } else if s[0].key@ == key {
        Some(s[0])
    } else {
        first_release(s.drop_first(), key)
    }
}

pub open spec fn first_credit(s: Seq<ArtistRef>, key: ArtistKeyModel) -> Option<ArtistRef>
    decreases s.len(),
{
    if s.len() == 0 {
        None
    } else if s[0].key@ == key {
        Some(s[0])
    } else {
        first_credit(s.drop_first(), key)
    }
}

/// The artist to load a release for, key and name together: the preferred one
/// where the release credits it or the catalog shows it, else the first one
/// credited.
pub open spec fn release_artist(
    backend: BackendSnapshot,
    release: Release,
    preferred: Option<ArtistKey>,
) -> Option<(ArtistKey, String)> {
    let first = if release.artists@.len() > 0 {
        Some((release.artists@[0].key, release.artists@[0].name))
    } else {
        None
    };
    match preferred {
        None => first,
        Some(key) => match first_credit(release.artists@, key@) {
            Some(artist) => Some((artist.key, artist.name)),
            None => match first_artist(shown_artists(backend), key@) {
                Some(artist) => Some((artist.key, artist.name)),
                None => first,
            },
        },
    }
}

/// What opening a screen asks of the backend.
pub open spec fn loads(backend: BackendSnapshot, screen: Screen, request_id: RequestId) -> Seq<
    Effect,
> {
    match screen {
        Screen::Artist(key) => match first_artist(shown_artists(backend), key@) {
            Some(artist) => seq![
                Effect::Send(BackendCommand::LoadArtist { request_id, key, name: artist.name }),
            ],
            None => seq![],
        },
        Screen::Release(key, preferred) => match first_release(shown_releases(backend), key@) {
            Some(release) => match release_artist(backend, release, preferred) {
                Some((artist_key, artist_name)) => seq![
                    Effect::Send(
                        BackendCommand::LoadRelease { request_id, key, artist_key, artist_name },
                    ),
                ],
                None => seq![],
            },
            None => seq![],
        },
        _ => seq![],
    }
}

impl FrontendModel {
    /// Shows `screen`; leaving another one for it makes that one what "back"
    /// returns to, and "forward" leads nowhere.
    pub open spec fn show(self, screen: Screen) -> Self {
        if self.screen.same(screen) {
            FrontendModel { screen, ..self }
        } else {
            FrontendModel {
                screen,
                navigation_history: self.navigation_history.push(self.screen),
                navigation_forward: Seq::empty(),
                ..self
            }
        }
    }

    pub open spec fn back(self) -> Self {
        if self.navigation_history.len() > 0 {
            FrontendModel {
                screen: self.navigation_history.last(),
                navigation_history: self.navigation_history.drop_last(),
                navigation_forward: self.navigation_forward.push(self.screen),
                ..self
            }
        } else {
            self
        }
    }

    pub open spec fn forward(self) -> Self {
        if self.navigation_forward.len() > 0 {
            FrontendModel {
                screen: self.navigation_forward.last(),
                navigation_history: self.navigation_history.push(self.screen),
                navigation_forward: self.navigation_forward.drop_last(),
                ..self
            }
        } else {
            self
        }
    }
}

impl AppModel {
    pub open spec fn with_settings(self, settings: SettingsSnapshot) -> Self {
        AppModel { backend: BackendSnapshot { settings, ..self.backend }, ..self }
    }

    /// The state after the user's action.
    pub open spec fn after(self, action: UiAction) -> Self {
        let frontend = self.frontend;
        let settings = self.backend.settings;
        match action {
            UiAction::Navigate(screen) => AppModel {
                frontend: frontend.show(screen),
                next_request_id: following(self.next_request_id),
                ..self
            },
            UiAction::Back => AppModel { frontend: frontend.back(), ..self },
            UiAction::Forward => AppModel { frontend: frontend.forward(), ..self },
            UiAction::ToggleQueue => AppModel {
                frontend: FrontendModel { queue_open: !frontend.queue_open, ..frontend },
                ..self
            },
            UiAction::ToggleSettings => AppModel {
                frontend: FrontendModel {
                    settings_open: !frontend.settings_open,
                    devices_open: frontend.devices_open && frontend.settings_open,
                    ..frontend
                },
                ..self
            },
            UiAction::ToggleDevices => AppModel {
                frontend: FrontendModel {
                    devices_open: !frontend.devices_open,
                    settings_open: frontend.settings_open && frontend.devices_open,
                    ..frontend
                },
                ..self
            },
            UiAction::ShowPlaylistPicker(track) => AppModel {
                frontend: FrontendModel { playlist_picker_track: Some(track), ..frontend },
                ..self
            },
            UiAction::ClosePlaylistPicker | UiAction::AddToPlaylist { .. } => AppModel {
                frontend: FrontendModel { playlist_picker_track: None, ..frontend },
                ..self
            },
            UiAction::SearchChanged(query) => AppModel {
                frontend: FrontendModel { search_query: query, ..frontend.show(Screen::Search) },
                next_request_id: following(self.next_request_id),
                ..self
            },
            UiAction::NetworkIdChanged(value) => self.with_settings(
                SettingsSnapshot { network_id: value, ..settings },
            ),
            UiAction::DeviceNameChanged(value) => self.with_settings(
                SettingsSnapshot { device_name: value, ..settings },
            ),
            UiAction::LibraryPathChanged(value) => self.with_settings(
                SettingsSnapshot { library_path: value, ..settings },
            ),
            UiAction::FederationChanged(enabled) => self.with_settings(
                SettingsSnapshot { federation_enabled: enabled, ..settings },
            ),
            UiAction::SaveFederatedOnListenChanged(enabled) => self.with_settings(
                SettingsSnapshot { save_federated_on_listen: enabled, ..settings },
            ),
            UiAction::LanguageChanged(language) => AppModel {
                frontend: FrontendModel { locale: Locale::En, ..frontend },
                ..self.with_settings(SettingsSnapshot { language, ..settings })
            },
            UiAction::ShowTrackInfo(track) => AppModel {
                frontend: FrontendModel { track_info: Some(track), ..frontend },
                ..self
            },
            UiAction::CloseTrackInfo => AppModel {
                frontend: FrontendModel { track_info: None, ..frontend },
                ..self
            },
            UiAction::DismissError => AppModel { transient_error: None, ..self },
            _ => self,
        }
    }

    /// The one command an action stands for, where it stands for exactly one
    /// whatever the state.
    pub open spec fn command_of(action: UiAction) -> Option<BackendCommand> {
        match action {
            UiAction::TogglePlayback => Some(BackendCommand::TogglePlayback),
            UiAction::Next => Some(BackendCommand::Next),
            UiAction::Previous => Some(BackendCommand::Previous),
            UiAction::ToggleShuffle => Some(BackendCommand::ToggleShuffle),
            UiAction::CycleRepeat => Some(BackendCommand::CycleRepeat),
            UiAction::Seek(position_nanos) => Some(BackendCommand::Seek { position_nanos }),
            UiAction::SetVolume(volume_ppb) => Some(BackendCommand::SetVolume { volume_ppb }),
            UiAction::PlayRelease { release_id, start } => Some(
                BackendCommand::PlayRelease { release_id, start },
            ),
            UiAction::PlayTrack(track) => Some(BackendCommand::PlayTrack { track }),
            UiAction::PlayQueueItem(item_id) => Some(BackendCommand::PlayQueueItem { item_id }),
            UiAction::PlayContext { tracks, selected } => Some(
                BackendCommand::PlayContext { tracks, selected },
            ),
            UiAction::AddNext(tracks) => Some(BackendCommand::AddNext { tracks }),
            UiAction::AddToEnd(tracks) => Some(BackendCommand::AddToEnd { tracks }),
            UiAction::ToggleLike(track) => Some(BackendCommand::ToggleLike { track }),
            UiAction::CreatePlaylist(title) => Some(BackendCommand::CreatePlaylist { title }),
            UiAction::AddToPlaylist { playlist_id, tracks } => Some(
                BackendCommand::AddToPlaylist { playlist_id, tracks },
            ),
            UiAction::CreateDeviceInvite => Some(BackendCommand::CreateDeviceInvite),
            UiAction::ConnectDevice(invite) => Some(BackendCommand::ConnectDevice { invite }),
            UiAction::AnswerDevicePairing { request_id, accept, use_requester_group } => Some(
                BackendCommand::AnswerDevicePairing { request_id, accept, use_requester_group },
            ),
            UiAction::SelectPlaybackDevice(device_id) => Some(
                BackendCommand::SelectPlaybackDevice { device_id },
            ),
            _ => None,
        }
    }

    /// What the user's action asks of the backend, in order.
    pub open spec fn effects(self, action: UiAction) -> Seq<Effect> {
        let request_id = RequestId(following(self.next_request_id));
        match action {
            UiAction::Navigate(screen) => loads(self.backend, screen, request_id),
            UiAction::SearchChanged(query) => {
                let search = Effect::Send(BackendCommand::Search { request_id, query });
                match (self.backend.search.federation_pending, self.backend.search.request_id) {
                    (true, Some(active)) => seq![
                        Effect::Send(BackendCommand::CancelSearch { request_id: active }),
                        search,
                    ],
                    _ => seq![search],
                }
            },
            UiAction::NetworkIdChanged(_)
            | UiAction::DeviceNameChanged(_)
            | UiAction::LibraryPathChanged(_)
            | UiAction::FederationChanged(_)
            | UiAction::SaveFederatedOnListenChanged(_)
            | UiAction::LanguageChanged(_) => seq![
                Effect::Send(BackendCommand::UpdateSettings(self.after(action).backend.settings)),
            ],
            _ => match Self::command_of(action) {
                Some(command) => seq![Effect::Send(command)],
                None => seq![],
            },
        }
    }

    /// The state after the backend spoke: a snapshot older than the one held
    /// changes nothing.
    pub open spec fn heard(self, event: AppEvent) -> Self {
        match event {
            AppEvent::BackendSnapshot(snapshot) => if snapshot.revision >= self.backend.revision {
                AppModel { backend: *snapshot, ..self }
            } else {
                self
            },
            AppEvent::CommandRejected(message) => AppModel {
                transient_error: Some(message),
                ..self
            },
        }
    }
}

/// Carries out the user's action and returns what to ask of the backend.
#[verifier::spinoff_prover]
#[verifier::rlimit(60)]
pub fn reduce_action(state: &mut AppState, action: UiAction) -> (r: Vec<Effect>)
    ensures
        final(state)@ == old(state)@.after(action),
        r@ == old(state)@.effects(action),
{
    match action {
        UiAction::Navigate(screen) => {
            show(&mut state.frontend, screen.clone());
            state.next_request_id = state.next_request_id.saturating_add(1);
            let request_id = RequestId::new(state.next_request_id);
            navigation_effects(&state.backend, screen, request_id)
        },
        UiAction::Back => {
            if let Some(screen) = state.frontend.navigation_history.pop() {
                state.frontend.navigation_forward.push(state.frontend.screen.clone());
                state.frontend.screen = screen;
            }
            Vec::new()
        },
        UiAction::Forward => {
            if let Some(screen) = state.frontend.navigation_forward.pop() {
                state.frontend.navigation_history.push(state.frontend.screen.clone());
                state.frontend.screen = screen;
            }
            Vec::new()
        },
        UiAction::ToggleQueue => {
            state.frontend.queue_open = !state.frontend.queue_open;
            Vec::new()
        },
        UiAction::ToggleSettings => {
            state.frontend.settings_open = !state.frontend.settings_open;
            if state.frontend.settings_open {
                state.frontend.devices_open = false;
            }
            Vec::new()
        },
        UiAction::ToggleDevices => {
            state.frontend.devices_open = !state.frontend.devices_open;
            if state.frontend.devices_open {
                state.frontend.settings_open = false;
            }
            Vec::new()
        },
        UiAction::TogglePlayback => send(BackendCommand::TogglePlayback),
        UiAction::Next => send(BackendCommand::Next),
        UiAction::Previous => send(BackendCommand::Previous),
        UiAction::ToggleShuffle => send(BackendCommand::ToggleShuffle),
        UiAction::CycleRepeat => send(BackendCommand::CycleRepeat),
        UiAction::Seek(position_nanos) => send(BackendCommand::Seek { position_nanos }),
        UiAction::SetVolume(volume_ppb) => send(BackendCommand::SetVolume { volume_ppb }),
        UiAction::PlayRelease { release_id, start } => send(
            BackendCommand::PlayRelease { release_id, start },
        ),
        UiAction::PlayTrack(track) => send(BackendCommand::PlayTrack { track }),
        UiAction::PlayQueueItem(item_id) => send(BackendCommand::PlayQueueItem { item_id }),
        UiAction::PlayContext { tracks, selected } => send(
            BackendCommand::PlayContext { tracks, selected },
        ),
        UiAction::AddNext(tracks) => send(BackendCommand::AddNext { tracks }),
        UiAction::AddToEnd(tracks) => send(BackendCommand::AddToEnd { tracks }),
        UiAction::ToggleLike(track) => send(BackendCommand::ToggleLike { track }),
        UiAction::ShowPlaylistPicker(track) => {
            state.frontend.playlist_picker_track = Some(track);
            Vec::new()
        },
        UiAction::ClosePlaylistPicker => {
            state.frontend.playlist_picker_track = None;
            Vec::new()
        },
        UiAction::CreatePlaylist(title) => send(BackendCommand::CreatePlaylist { title }),
        UiAction::AddToPlaylist { playlist_id, tracks } => {
            state.frontend.playlist_picker_track = None;
            send(BackendCommand::AddToPlaylist { playlist_id, tracks })
        },
        UiAction::CreateDeviceInvite => send(BackendCommand::CreateDeviceInvite),
        UiAction::ConnectDevice(invite) => send(BackendCommand::ConnectDevice { invite }),
        UiAction::AnswerDevicePairing { request_id, accept, use_requester_group } => send(
            BackendCommand::AnswerDevicePairing { request_id, accept, use_requester_group },
        ),
        UiAction::SelectPlaybackDevice(device_id) => send(
            BackendCommand::SelectPlaybackDevice { device_id },
        ),
        UiAction::SearchChanged(query) => {
            let previous = active_search_request(&state.backend);
            state.frontend.search_query = query.clone();
            show(&mut state.frontend, Screen::Search);
            state.next_request_id = state.next_request_id.saturating_add(1);
            let request_id = RequestId::new(state.next_request_id);
            let mut effects: Vec<Effect> = Vec::new();
            if let Some(previous) = previous {
                effects.push(Effect::Send(BackendCommand::CancelSearch { request_id: previous }));
            }
            effects.push(Effect::Send(BackendCommand::Search { request_id, query }));
            effects
        },
        UiAction::NetworkIdChanged(value) => {
            state.backend.settings.network_id = value;
            send(BackendCommand::UpdateSettings(state.backend.settings.clone()))
        },
        UiAction::DeviceNameChanged(value) => {
            state.backend.settings.device_name = value;
            send(BackendCommand::UpdateSettings(state.backend.settings.clone()))
        },
        UiAction::LibraryPathChanged(value) => {
            state.backend.settings.library_path = value;
            send(BackendCommand::UpdateSettings(state.backend.settings.clone()))
        },
        UiAction::FederationChanged(enabled) => {
            state.backend.settings.federation_enabled = enabled;
            send(BackendCommand::UpdateSettings(state.backend.settings.clone()))
        },
        UiAction::SaveFederatedOnListenChanged(enabled) => {
            state.backend.settings.save_federated_on_listen = enabled;
            send(BackendCommand::UpdateSettings(state.backend.settings.clone()))
        },
        UiAction::LanguageChanged(language) => {
            state.frontend.locale = Locale::En;
            state.backend.settings.language = language;
            send(BackendCommand::UpdateSettings(state.backend.settings.clone()))
        },
        UiAction::ShowTrackInfo(track) => {
            state.frontend.track_info = Some(track);
            Vec::new()
        },
        UiAction::CloseTrackInfo => {
            state.frontend.track_info = None;
            Vec::new()
        },
        UiAction::DismissError => {
            state.transient_error = None;
            Vec::new()
        },
    }
}

fn show(frontend: &mut FrontendState, screen: Screen)
    ensures
        final(frontend)@ == old(frontend)@.show(screen),
{
    if frontend.screen != screen {
        frontend.navigation_history.push(frontend.screen.clone());
        frontend.navigation_forward.clear();
    }
    frontend.screen = screen;
}

fn navigation_effects(backend: &BackendSnapshot, screen: Screen, request_id: RequestId) -> (r: Vec<
    Effect,
>)
    ensures
        r@ == loads(*backend, screen, request_id),
{
    match screen {
        Screen::Artist(key) => match find_artist(backend, &key) {
            Some(artist) => {
                let name = artist.name.clone();
                send(BackendCommand::LoadArtist { request_id, key, name })
            },
            None => Vec::new(),
        },
        Screen::Release(key, preferred) => match find_release(backend, &key) {
            Some(release) => match choose_artist(backend, release, &preferred) {
                Some((artist_key, artist_name)) => send(
                    BackendCommand::LoadRelease { request_id, key, artist_key, artist_name },
                ),
                None => Vec::new(),
            },
            None => Vec::new(),
        },
        _ => Vec::new(),
    }
}

fn choose_artist(
    backend: &BackendSnapshot,
    release: &Release,
    preferred: &Option<ArtistKey>,
) -> (r: Option<(ArtistKey, String)>)
    ensures
        r == release_artist(*backend, *release, *preferred),
{
    if let Some(key) = preferred {
        if let Some(artist) = credit_in(&release.artists, key) {
            return Some((artist.key.clone(), artist.name.clone()));
        }
        if let Some(artist) = find_artist(backend, key) {
            return Some((artist.key.clone(), artist.name.clone()));
        }
    }
    if release.artists.len() > 0 {
        Some((release.artists[0].key.clone(), release.artists[0].name.clone()))
    } else {
        None
    }
}

fn credit_in<'a>(artists: &'a Vec<ArtistRef>, key: &ArtistKey) -> (r: Option<&'a ArtistRef>)
    ensures
        (match r {
            Some(a) => Some(*a),
            None => None,
        }) == first_credit(artists@, key@),
{
    let mut i: usize = 0;
    proof {
        assert(artists@.skip(0) =~= artists@);
    }
    while i < artists.len()
        invariant
            i <= artists.len(),
            first_credit(artists@, key@) == first_credit(artists@.skip(i as int), key@),
        decreases artists.len() - i,
    {
        if artists[i].key == *key {
            return Some(&artists[i]);
        }
        proof {
            assert(artists@.skip(i as int).drop_first() =~= artists@.skip(i + 1));
        }
        i += 1;
    }
    None
}

fn artist_in<'a>(artists: &'a Vec<Artist>, key: &ArtistKey) -> (r: Option<&'a Artist>)
    ensures
        (match r {
            Some(a) => Some(*a),
            None => None,
        }) == first_artist(artists@, key@),
{
    let mut i: usize = 0;
    proof {
        assert(artists@.skip(0) =~= artists@);
    }
    while i < artists.len()
        invariant
            i <= artists.len(),
            first_artist(artists@, key@) == first_artist(artists@.skip(i as int), key@),
        decreases artists.len() - i,
    {
        if artists[i].key == *key {
            return Some(&artists[i]);
        }
        proof {
            assert(artists@.skip(i as int).drop_first() =~= artists@.skip(i + 1));
        }
        i += 1;
    }
    None
}

fn release_in<'a>(releases: &'a Vec<Release>, key: &ReleaseKey) -> (r: Option<&'a Release>)
    ensures
        (match r {
            Some(a) => Some(*a),
            None => None,
        }) == first_release(releases@, key@),
{
    let mut i: usize = 0;
    proof {
        assert(releases@.skip(0) =~= releases@);
    }
    while i < releases.len()
        invariant
            i <= releases.len(),
            first_release(releases@, key@) == first_release(releases@.skip(i as int), key@),
        decreases releases.len() - i,
    {
        if releases[i].key == *key {
            return Some(&releases[i]);
        }
        proof {
            assert(releases@.skip(i as int).drop_first() =~= releases@.skip(i + 1));
        }
        i += 1;
    }
    None
}

proof fn lemma_first_artist_of_both(a: Seq<Artist>, b: Seq<Artist>, key: ArtistKeyModel)
    ensures
        first_artist(a + b, key) == (match first_artist(a, key) {
            Some(found) => Some(found),
            None => first_artist(b, key),
        }),
    decreases a.len(),
{
    if a.len() == 0 {
        assert(a + b =~= b);
    } else {
        lemma_first_artist_of_both(a.drop_first(), b, key);
        assert((a + b).drop_first() =~= a.drop_first() + b);
    }
}

proof fn lemma_first_release_of_both(a: Seq<Release>, b: Seq<Release>, key: ReleaseKeyModel)
    ensures
        first_release(a + b, key) == (match first_release(a, key) {
            Some(found) => Some(found),
            None => first_release(b, key),
        }),
    decreases a.len(),
{
    if a.len() == 0 {
        assert(a + b =~= b);
    } else {
        lemma_first_release_of_both(a.drop_first(), b, key);
        assert((a + b).drop_first() =~= a.drop_first() + b);
    }
}

/// The artist the backend shows under `key`: the library's, else the search's.
pub fn find_artist<'a>(backend: &'a BackendSnapshot, key: &ArtistKey) -> (r: Option<&'a Artist>)
    ensures
        (match r {
            Some(a) => Some(*a),
            None => None,
        }) == first_artist(shown_artists(*backend), key@),
{
    if let RemoteData::Ready(library) = &backend.library {
        proof {
            lemma_first_artist_of_both(library.artists@, backend.search.results.artists@, key@);
        }
        if let Some(artist) = artist_in(&library.artists, key) {
            return Some(artist);
        }
    }
    artist_in(&backend.search.results.artists, key)
}

/// The release the backend shows under `key`: the library's, else the search's.
pub fn find_release<'a>(backend: &'a BackendSnapshot, key: &ReleaseKey) -> (r: Option<&'a Release>)
    ensures
        (match r {
            Some(a) => Some(*a),
            None => None,
        }) == first_release(shown_releases(*backend), key@),
{
    if let RemoteData::Ready(library) = &backend.library {
        proof {
            lemma_first_release_of_both(
                library.featured_releases@,
                backend.search.results.releases@,
                key@,
            );
        }
        if let Some(release) = release_in(&library.featured_releases, key) {
            return Some(release);
        }
    }
    release_in(&backend.search.results.releases, key)
}

/// Takes in what the backend said.
pub fn reduce_event(state: &mut AppState, event: AppEvent)
    ensures
        final(state)@ == old(state)@.heard(event),
{
    match event {
        AppEvent::BackendSnapshot(snapshot) => {
            if snapshot.revision >= state.backend.revision {
                state.backend = *snapshot;
            }
        },
        AppEvent::CommandRejected(message) => {
            state.transient_error = Some(message);
        },
    }
}

fn active_search_request(snapshot: &BackendSnapshot) -> (r: Option<RequestId>)
    ensures
        r == (if snapshot.search.federation_pending {
            snapshot.search.request_id
        } else {
            None
        }),
{
    if snapshot.search.federation_pending {
        snapshot.search.request_id
    } else {
        None
    }
}

fn send(command: BackendCommand) -> (r: Vec<Effect>)
    ensures
        r@ == seq![Effect::Send(command)],
{
    let mut effects: Vec<Effect> = Vec::new();
    effects.push(Effect::Send(command));
    effects
}

/// What the player bar shows. Progress and volume count in parts per billion.
#[derive(Debug, Clone, PartialEq)]
pub struct PlayerProjection {
    pub has_track: bool,
    pub playing: bool,
    pub title: String,
    pub artist: String,
    pub elapsed: String,
    pub duration: String,
    pub progress_ppb: u32,
    pub volume_ppb: u32,
    pub shuffle: bool,
    pub repeat: PlaybackRepeat,
}

/// The time played, never beyond the end.
pub open spec fn elapsed_nanos(position: u64, duration: u64) -> u64 {
    if position < duration {
        position
    } else {
        duration
    }
}

/// Minutes and seconds, the seconds in two digits.
pub open spec fn clock_text(nanos: u64) -> Seq<char> {
    let seconds = nanos as nat / 1_000_000_000;
    decimal(seconds / 60) + seq![':'] + two_digits(seconds % 60)
}

/// The played share of the whole, in parts per billion, rounded down; nothing
/// of nothing.
pub open spec fn progress(elapsed: u64, duration: u64) -> int {
    if duration > 0 {
        elapsed as int * UNIT as int / duration as int
    } else {
        0
    }
}

impl AppState {
    pub fn player_projection(&self) -> (r: PlayerProjection)
        requires
            self@.backend.queue@.wf(),
        ensures
            ({
                let playback = self@.backend.playback;
                let elapsed = elapsed_nanos(playback.position_nanos, playback.duration_nanos);
                &&& match self@.backend.queue@.current_item() {
                    Some(item) => r.has_track && r.title@ == item.track.title && r.artist@
                        == item.track.artist,
                    None => !r.has_track && r.title@ == "Nothing playing"@ && r.artist@.len() == 0,
                }
                &&& r.playing == (playback.status == PlaybackStatus::Playing)
                &&& r.elapsed@ == clock_text(elapsed)
                &&& r.duration@ == clock_text(playback.duration_nanos)
                &&& r.progress_ppb == progress(elapsed, playback.duration_nanos)
                &&& r.volume_ppb == playback.volume_ppb
                &&& r.shuffle == playback.shuffle
                &&& r.repeat == playback.repeat
            }),
    {
        let playback = self.backend.playback;
        let elapsed: u64 = if playback.position_nanos < playback.duration_nanos {
            playback.position_nanos
        } else {
            playback.duration_nanos
        };
        let (has_track, title, artist) = match self.backend.queue.current() {
            Some(item) => (true, item.track.title.clone(), item.track.artist.clone()),
            None => (false, "Nothing playing".to_owned(), String::new()),
        };
        PlayerProjection {
            has_track,
            playing: playback.status == PlaybackStatus::Playing,
            title,
            artist,
            elapsed: duration_label(elapsed),
            duration: duration_label(playback.duration_nanos),
            progress_ppb: progress_ratio(elapsed, playback.duration_nanos),
            volume_ppb: playback.volume_ppb,
            shuffle: playback.shuffle,
            repeat: playback.repeat,
        }
    }
}

pub fn duration_label(nanos: u64) -> (r: String)
    ensures
        r@ == clock_text(nanos),
{
    let total: u64 = nanos / 1_000_000_000;
    let mut r = decimal_text(total / 60);
    r.push(':');
    r.push_str(two_digit_text(total % 60).as_str());
    proof {
        assert(r@ =~= clock_text(nanos));
    }
    r
}

fn progress_ratio(elapsed: u64, duration: u64) -> (r: u32)
    requires
        elapsed <= duration,
    ensures
        r == progress(elapsed, duration),
{
    if duration > 0 {
        proof {
            assert(elapsed as int * 1_000_000_000 <= duration as int * 1_000_000_000);
            assert(elapsed as int * 1_000_000_000 / (duration as int) <= 1_000_000_000)
                by (nonlinear_arith)
                requires
                    0 < duration,
                    elapsed as int * 1_000_000_000 <= duration as int * 1_000_000_000,
            ;
            assert(0 <= elapsed as int * 1_000_000_000 / (duration as int)) by (nonlinear_arith)
                requires
                    0 < duration,
            ;
        }
        (elapsed as u128 * 1_000_000_000 / duration as u128) as u32
    } else {
        0
    }
}

/// Going back after opening a screen returns to the one that was left, and
/// "forward" then leads to the one that was opened.
pub proof fn back_undoes_navigation(state: AppModel, screen: Screen)
    requires
        !state.frontend.screen.same(screen),
    ensures
        state.after(UiAction::Navigate(screen)).after(UiAction::Back).frontend == (FrontendModel {
            navigation_forward: seq![screen],
            ..state.frontend
        }),
{
    let opened = state.after(UiAction::Navigate(screen)).frontend;
    assert(opened.navigation_history.drop_last() =~= state.frontend.navigation_history);
    assert(opened.navigation_forward.push(screen) =~= seq![screen]);
}

/// "Forward" undoes "back" wherever there is something to go back to.
pub proof fn forward_undoes_back(state: AppModel)
    requires
        state.frontend.navigation_history.len() > 0,
    ensures
        state.after(UiAction::Back).after(UiAction::Forward) == state,
{
    let back = state.after(UiAction::Back).frontend;
    assert(back.navigation_history.push(state.frontend.navigation_history.last())
        =~= state.frontend.navigation_history);
    assert(back.navigation_forward.drop_last() =~= state.frontend.navigation_forward);
}

/// "Back" undoes "forward" wherever there is something to go forward to.
pub proof fn back_undoes_forward(state: AppModel)
    requires
        state.frontend.navigation_forward.len() > 0,
    ensures
        state.after(UiAction::Forward).after(UiAction::Back) == state,
{
    let ahead = state.after(UiAction::Forward).frontend;
    assert(ahead.navigation_forward.push(state.frontend.navigation_forward.last())
        =~= state.frontend.navigation_forward);
    assert(ahead.navigation_history.drop_last() =~= state.frontend.navigation_history);
}

/// The settings and the devices panel are never opened on top of each other:
/// no action leaves both open that did not find both open.
pub proof fn panels_exclude_each_other(state: AppModel, action: UiAction)
    requires
        !(state.frontend.settings_open && state.frontend.devices_open),
    ensures
        !(state.after(action).frontend.settings_open && state.after(action).frontend.devices_open),
{
}

/// A new search first cancels the one the federation is still answering.
pub proof fn a_new_search_cancels_the_active_one(state: AppModel, query: String, active: RequestId)
    requires
        state.backend.search.federation_pending,
        state.backend.search.request_id == Some(active),
    ensures
        state.effects(UiAction::SearchChanged(query)) == seq![
            Effect::Send(BackendCommand::CancelSearch { request_id: active }),
            Effect::Send(
                BackendCommand::Search {
                    request_id: RequestId(following(state.next_request_id)),
                    query,
                },
            ),
        ],
{
}

/// A stale snapshot is ignored, and the revision held never goes down.
pub proof fn revisions_never_go_down(state: AppModel, event: AppEvent)
    ensures
        state.heard(event).backend.revision >= state.backend.revision,
        event matches AppEvent::BackendSnapshot(snapshot) && snapshot.revision
            < state.backend.revision ==> state.heard(event) == state,
{
}

/// Whatever the user does, only settings of the backend's state change before
/// the backend answers.
pub proof fn actions_touch_only_settings(state: AppModel, action: UiAction)
    ensures
        state.after(action).backend == (BackendSnapshot {
            settings: state.after(action).backend.settings,
            ..state.backend
        }),
{
}

/// What the player's controls ask for reaches the backend as it was given, and
/// nothing else does.
pub proof fn controls_reach_the_backend(
    state: AppModel,
    position_nanos: u64,
    volume_ppb: u32,
    tracks: Vec<TrackKey>,
    selected: TrackKey,
)
    ensures
        state.effects(UiAction::Seek(position_nanos)) == seq![
            Effect::Send(BackendCommand::Seek { position_nanos }),
        ],
        state.effects(UiAction::SetVolume(volume_ppb)) == seq![
            Effect::Send(BackendCommand::SetVolume { volume_ppb }),
        ],
        state.effects(UiAction::TogglePlayback) == seq![
            Effect::Send(BackendCommand::TogglePlayback),
        ],
        state.effects(UiAction::Next) == seq![Effect::Send(BackendCommand::Next)],
        state.effects(UiAction::Previous) == seq![Effect::Send(BackendCommand::Previous)],
        state.effects(UiAction::ToggleShuffle) == seq![
            Effect::Send(BackendCommand::ToggleShuffle),
        ],
        state.effects(UiAction::CycleRepeat) == seq![Effect::Send(BackendCommand::CycleRepeat)],
        state.effects(UiAction::AddNext(tracks)) == seq![
            Effect::Send(BackendCommand::AddNext { tracks }),
        ],
        state.effects(UiAction::AddToEnd(tracks)) == seq![
            Effect::Send(BackendCommand::AddToEnd { tracks }),
        ],
        state.effects(UiAction::PlayTrack(selected)) == seq![
            Effect::Send(BackendCommand::PlayTrack { track: selected }),
        ],
        state.effects(UiAction::PlayContext { tracks, selected }) == seq![
            Effect::Send(BackendCommand::PlayContext { tracks, selected }),
        ],
        state.effects(UiAction::ToggleLike(selected)) == seq![
            Effect::Send(BackendCommand::ToggleLike { track: selected }),
        ],
{
}

/// A setting that is changed holds as it was entered, the others stay, and the
/// backend is sent exactly the settings that then hold.
pub proof fn changed_settings_are_sent(state: AppModel, value: String, enabled: bool)
    ensures
        ({
            let before = state.backend.settings;
            let network = state.after(UiAction::NetworkIdChanged(value)).backend.settings;
            let name = state.after(UiAction::DeviceNameChanged(value)).backend.settings;
            let path = state.after(UiAction::LibraryPathChanged(value)).backend.settings;
            let language = state.after(UiAction::LanguageChanged(value)).backend.settings;
            let joined = state.after(UiAction::FederationChanged(enabled)).backend.settings;
            let saves = state.after(
                UiAction::SaveFederatedOnListenChanged(enabled),
            ).backend.settings;
            &&& network == (SettingsSnapshot { network_id: value, ..before })
            &&& name == (SettingsSnapshot { device_name: value, ..before })
            &&& path == (SettingsSnapshot { library_path: value, ..before })
            &&& language == (SettingsSnapshot { language: value, ..before })
            &&& joined == (SettingsSnapshot { federation_enabled: enabled, ..before })
            &&& saves == (SettingsSnapshot { save_federated_on_listen: enabled, ..before })
            &&& state.effects(UiAction::NetworkIdChanged(value)) == seq![
                Effect::Send(BackendCommand::UpdateSettings(network)),
            ]
            &&& state.effects(UiAction::DeviceNameChanged(value)) == seq![
                Effect::Send(BackendCommand::UpdateSettings(name)),
            ]
            &&& state.effects(UiAction::LibraryPathChanged(value)) == seq![
                Effect::Send(BackendCommand::UpdateSettings(path)),
            ]
            &&& state.effects(UiAction::LanguageChanged(value)) == seq![
                Effect::Send(BackendCommand::UpdateSettings(language)),
            ]
            &&& state.effects(UiAction::FederationChanged(enabled)) == seq![
                Effect::Send(BackendCommand::UpdateSettings(joined)),
            ]
            &&& state.effects(UiAction::SaveFederatedOnListenChanged(enabled)) == seq![
                Effect::Send(BackendCommand::UpdateSettings(saves)),
            ]
        }),
{
}

/// A snapshot that is no older than the one held is shown whole, and a refusal
/// is shown until it is dismissed.
pub proof fn what_the_backend_says_is_shown(
    state: AppModel,
    snapshot: Box<BackendSnapshot>,
    message: String,
)
    ensures
        snapshot.revision >= state.backend.revision ==> state.heard(
            AppEvent::BackendSnapshot(snapshot),
        ).backend == *snapshot,
        snapshot.revision < state.backend.revision ==> state.heard(
            AppEvent::BackendSnapshot(snapshot),
        ) == state,
        state.heard(AppEvent::CommandRejected(message)).transient_error == Some(message),
        state.after(UiAction::DismissError).transient_error is None,
{
}

} // verus!
