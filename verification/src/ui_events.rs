//! What the window asks for, as actions.
use crate::api::BackendSnapshot;
use crate::application::{AppState, Screen, UiAction};
use crate::catalog::{TrackKey, TrackKeyModel};
use crate::queue::QueueItemId;
use crate::text::same_str;
use crate::view_keys::{
    parse_i64, parse_track_key, parse_u64, parsed, read_track_key, signed_number,
};
use crate::view_selection::{
    breadcrumb_screen, context_tracks, crumb_leads_to, find_artist_key, find_release_key, keys_of,
    named_artist, named_release, track_context,
};
use crate::views::{opt_view, views};
use vstd::prelude::*;

verus! {

broadcast use crate::views::group_views;

/// The side bar leads to a screen; what it does not know leads home.
pub fn navigate(target: &str) -> (r: UiAction)
    ensures
        r == UiAction::Navigate(
            if target@ == "search"@ {
                Screen::Search
            } else if target@ == "library"@ {
                Screen::Library
            } else {
                Screen::Home
            },
        ),
{
    if same_str(target, "search") {
        UiAction::Navigate(Screen::Search)
    } else if same_str(target, "library") {
        UiAction::Navigate(Screen::Library)
    } else {
        UiAction::Navigate(Screen::Home)
    }
}

/// What a choice from a track's menu comes to.
pub open spec fn is_menu_choice(action: Seq<char>, key: Option<TrackKeyModel>, r: Option<UiAction>) -> bool {
    match key {
        None => r is None,
        Some(key) => if action == "like"@ {
            r matches Some(UiAction::ToggleLike(k)) && k@ == key
        } else if action == "play-next"@ {
            r matches Some(UiAction::AddNext(ks)) && views(ks@) == seq![key]
        } else if action == "add-end"@ {
            r matches Some(UiAction::AddToEnd(ks)) && views(ks@) == seq![key]
        } else if action == "information"@ {
            r matches Some(UiAction::ShowTrackInfo(k)) && k@ == key
        } else if action == "playlist"@ {
            r matches Some(UiAction::ShowPlaylistPicker(k)) && k@ == key
        } else {
            r is None
        },
    }
}

pub fn track_action(action: &str, key: &str) -> (r: Option<UiAction>)
    ensures
        is_menu_choice(action@, read_track_key(key@), r),
{
    let key = match parse_track_key(key) {
        Some(key) => key,
        None => {
            return None;
        },
    };
    if same_str(action, "like") {
        Some(UiAction::ToggleLike(key))
    } else if same_str(action, "play-next") {
        let mut keys: Vec<TrackKey> = Vec::new();
        keys.push(key);
        assert(views(keys@) =~= seq![key@]);
        Some(UiAction::AddNext(keys))
    } else if same_str(action, "add-end") {
        let mut keys: Vec<TrackKey> = Vec::new();
        keys.push(key);
        assert(views(keys@) =~= seq![key@]);
        Some(UiAction::AddToEnd(keys))
    } else if same_str(action, "information") {
        Some(UiAction::ShowTrackInfo(key))
    } else if same_str(action, "playlist") {
        Some(UiAction::ShowPlaylistPicker(key))
    } else {
        None
    }
}

pub fn open_playlist(id: &str) -> (r: Option<UiAction>)
    ensures
        match parsed(id@, i64::MIN as int, i64::MAX as int) {
            Some(n) => r == Some(UiAction::Navigate(Screen::Playlist(n as i64))),
            None => r is None,
        },
{
    match parse_i64(id) {
        Some(id) => Some(UiAction::Navigate(Screen::Playlist(id))),
        None => None,
    }
}

/// Adds the track for which a playlist is being picked.
pub fn add_track_to_playlist(state: &AppState, playlist_id: &str) -> (r: Option<UiAction>)
    ensures
        match (
            parsed(playlist_id@, i64::MIN as int, i64::MAX as int),
            opt_view(state.frontend.playlist_picker_track),
        ) {
            (Some(n), Some(key)) => r matches Some(UiAction::AddToPlaylist { playlist_id, tracks })
                && playlist_id == n && views(tracks@) == seq![key],
            _ => r is None,
        },
{
    match (parse_i64(playlist_id), &state.frontend.playlist_picker_track) {
        (Some(playlist_id), Some(key)) => {
            let mut tracks: Vec<TrackKey> = Vec::new();
            tracks.push(key.clone());
            assert(views(tracks@) =~= seq![key@]);
            Some(UiAction::AddToPlaylist { playlist_id, tracks })
        },
        _ => None,
    }
}

pub fn play_queue_item(id: &str) -> (r: Option<UiAction>)
    ensures
        match r {
            Some(UiAction::PlayQueueItem(item)) => id@[0] != '-' && signed_number(id@) == Some(
                item.0 as int,
            ),
            Some(_) => false,
            None => id@.len() == 0 || id@[0] == '-' || parsed(id@, 0, u64::MAX as int) is None,
        },
{
    match parse_u64(id) {
        Some(id) => Some(UiAction::PlayQueueItem(QueueItemId::new(id))),
        None => None,
    }
}

pub fn navigate_breadcrumb(backend: &BackendSnapshot, target: &str) -> (r: Option<UiAction>)
    ensures
        match r {
            Some(UiAction::Navigate(screen)) => crumb_leads_to(backend@, target@, Some(screen)),
            Some(_) => false,
            None => crumb_leads_to(backend@, target@, None),
        },
{
    match breadcrumb_screen(backend, target) {
        Some(screen) => Some(UiAction::Navigate(screen)),
        None => None,
    }
}

pub fn open_artist(backend: &BackendSnapshot, key: &str) -> (r: Option<UiAction>)
    ensures
        match named_artist(backend@, key@) {
            Some(named) => r matches Some(UiAction::Navigate(Screen::Artist(k))) && k@ == named,
            None => r is None,
        },
{
    match find_artist_key(backend, key) {
        Some(key) => Some(UiAction::Navigate(Screen::Artist(key))),
        None => None,
    }
}

/// Opens a release; from an artist's page, under that artist.
pub fn open_release(state: &AppState, key: &str) -> (r: Option<UiAction>)
    ensures
        match named_release(state.backend@, key@) {
            Some(named) => r matches Some(UiAction::Navigate(Screen::Release(k, preferred)))
                && k@ == named && opt_view(preferred) == (match state.frontend.screen {
                Screen::Artist(artist) => Some(artist@),
                _ => None,
            }),
            None => r is None,
        },
{
    let preferred = match &state.frontend.screen {
        Screen::Artist(key) => Some(key.clone()),
        _ => None,
    };
    match find_release_key(&state.backend, key) {
        Some(key) => Some(UiAction::Navigate(Screen::Release(key, preferred))),
        None => None,
    }
}

pub fn play_release(backend: &BackendSnapshot, key: &str) -> (r: Option<UiAction>)
    ensures
        match named_release(backend@, key@) {
            Some(named) => r matches Some(UiAction::PlayRelease { release_id, start }) && release_id@
                == named && start == 0,
            None => r is None,
        },
{
    match find_release_key(backend, key) {
        Some(release_id) => Some(UiAction::PlayRelease { release_id, start: 0 }),
        None => None,
    }
}

pub fn play_track(key: &str) -> (r: Option<UiAction>)
    ensures
        match read_track_key(key@) {
            Some(read) => r matches Some(UiAction::PlayTrack(k)) && k@ == read,
            None => r is None,
        },
{
    match parse_track_key(key) {
        Some(key) => Some(UiAction::PlayTrack(key)),
        None => None,
    }
}

pub open spec fn is_among(keys: Seq<TrackKeyModel>, key: TrackKeyModel) -> bool {
    exists|i: int| 0 <= i < keys.len() && (#[trigger] keys[i]).matches(key)
}

/// Plays the tracks that stand together, from the chosen one on, where it is
/// among them.
pub fn play_track_context(state: &AppState, context: &str, selected: &str) -> (r: Option<UiAction>)
    ensures
        ({
            let keys = keys_of(context_tracks(state.backend@, state.frontend.screen, context@));
            match read_track_key(selected@) {
                Some(key) => if is_among(keys, key) {
                    r matches Some(UiAction::PlayContext { tracks, selected }) && views(tracks@)
                        == keys && selected@ == key
                } else {
                    r is None
                },
                None => r is None,
            }
        }),
{
    let selected = match parse_track_key(selected) {
        Some(key) => key,
        None => {
            return None;
        },
    };
    let tracks = track_context(&state.backend, &state.frontend.screen, context);
    let ghost keys = views(tracks@);
    let mut i: usize = 0;
    while i < tracks.len() && !tracks[i].matches(&selected)
        invariant
            i <= tracks.len() == keys.len(),
            keys == views(tracks@),
            forall|j: int| 0 <= j < i ==> !(#[trigger] keys[j]).matches(selected@),
        decreases tracks.len() - i,
    {
        assert(!keys[i as int].matches(selected@));
        i += 1;
    }
    if i < tracks.len() {
        assert(keys[i as int].matches(selected@));
        Some(UiAction::PlayContext { tracks, selected })
    } else {
        None
    }
}

/// A place on the progress bar, in parts per billion, as a time. One too large
/// to count is the largest.
pub fn seek(fraction_ppb: u32, duration_nanos: u64) -> (r: UiAction)
    ensures
        r matches UiAction::Seek(nanos) && nanos == (if duration_nanos * fraction_ppb
            / 1_000_000_000 <= u64::MAX {
            duration_nanos * fraction_ppb / 1_000_000_000
        } else {
            u64::MAX as int
        }),
{
    proof {
        assert(0 <= duration_nanos * fraction_ppb <= u64::MAX * u32::MAX) by (nonlinear_arith);
    }
    let product: u128 = duration_nanos as u128 * fraction_ppb as u128;
    let nanos: u128 = product / 1_000_000_000;
    if nanos <= u64::MAX as u128 {
        UiAction::Seek(nanos as u64)
    } else {
        UiAction::Seek(u64::MAX)
    }
}

} // verus!
