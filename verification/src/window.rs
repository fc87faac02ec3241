//! The window as a whole: what each of its parts shows in a given state.
use crate::api::{
    BackendModel, BackendSnapshot, ConnectedDevicesModel, ConnectedDevicesSnapshot,
    DevicePlaybackRole, PlaybackRepeat,
};
use crate::application::{clock_text, duration_label, AppState, Screen};
use crate::catalog::{
    Artist, ArtistRef, ArtistRefModel, AudioSource, AudioSourceModel, Release, ReleaseModel, Track,
    TrackKey, TrackKeyModel, TrackModel,
};
use crate::find::found;
use crate::lookup::{has_key, ref_view};
use crate::queue::QueueModel;
use crate::sort::kept;
use crate::text::{ascii_lower, chars_of, decimal, decimal_text, uppercase};
use crate::view::{
    artist_extent, artists_to_views, devices_to_views, extent, pairings_to_views,
    release_tracks_to_views, releases_to_views, shown_artists, shown_devices, shown_pairings,
    shown_releases, shown_tracks, tracks_to_views, ArtistView, ArtistViewModel, DeviceView,
    DeviceViewModel, PairingView, PairingViewModel, ReleaseView, ReleaseViewModel, TrackView,
    TrackViewModel,
};
use crate::view_catalog::{
    federation_share, main_credit, other_credits, release_artist_credits, release_federation_state,
};
use crate::view_keys::{artist_key_text, format_artist_key, format_release_key, release_key_text};
use crate::view_labels::{
    artist_links, artwork_path, federation_status, links, links_to, metadata_label,
    network_status, picture_path, quality_label, release_type_label, track_artist_links,
    track_metadata_label, track_quality_label, type_label, ArtistLinkView, ArtistLinkViewModel,
};
use crate::view_selection::{
    artist_featured_tracks, artist_releases, breadcrumbs, chosen_artist, chosen_playlist,
    chosen_release, find_shown_track, guest_tracks, library_at_hand, ready_library, releases_by,
    selected_artist, selected_playlist, selected_release, tracks_at_hand, way_to, BreadcrumbView,
    BreadcrumbViewModel,
};
use crate::views::{opt_view, views};
use vstd::prelude::*;

verus! {

broadcast use crate::views::group_views;

/// A line of contributors.
#[derive(Debug, PartialEq)]
pub struct ContributorLine {
    pub artists: Vec<ArtistLinkView>,
}

pub struct ContributorLineModel {
    pub artists: Seq<ArtistLinkViewModel>,
}

impl View for ContributorLine {
    type V = ContributorLineModel;

    open spec fn view(&self) -> ContributorLineModel {
        ContributorLineModel {
            artists: views(self.artists@),
        }
    }
}

/// The frame of the window.
#[derive(Debug, PartialEq)]
pub struct ShellView {
    pub active_screen: String,
    pub can_go_back: bool,
    pub can_go_forward: bool,
    pub breadcrumbs: Vec<BreadcrumbView>,
    pub playlist_picker_open: bool,
    pub network_busy: bool,
    pub network_text: String,
    pub error_message: String,
}

pub struct ShellViewModel {
    pub active_screen: Seq<char>,
    pub can_go_back: bool,
    pub can_go_forward: bool,
    pub breadcrumbs: Seq<BreadcrumbViewModel>,
    pub playlist_picker_open: bool,
    pub network_busy: bool,
    pub network_text: Seq<char>,
    pub error_message: Seq<char>,
}

impl View for ShellView {
    type V = ShellViewModel;

    open spec fn view(&self) -> ShellViewModel {
        ShellViewModel {
            active_screen: self.active_screen@,
            can_go_back: self.can_go_back,
            can_go_forward: self.can_go_forward,
            breadcrumbs: views(self.breadcrumbs@),
            playlist_picker_open: self.playlist_picker_open,
            network_busy: self.network_busy,
            network_text: self.network_text@,
            error_message: self.error_message@,
        }
    }
}

/// The page of an artist or a release.
#[derive(Debug, PartialEq)]
pub struct DetailView {
    pub artwork: Option<String>,
    pub title: String,
    pub subtitle: String,
    pub release_type: String,
    pub main_artists: Vec<ArtistLinkView>,
    pub contributors: Vec<ContributorLine>,
    pub tracks: Vec<TrackView>,
    pub federation_state: i32,
}

pub struct DetailViewModel {
    pub artwork: Option<Seq<char>>,
    pub title: Seq<char>,
    pub subtitle: Seq<char>,
    pub release_type: Seq<char>,
    pub main_artists: Seq<ArtistLinkViewModel>,
    pub contributors: Seq<ContributorLineModel>,
    pub tracks: Seq<TrackViewModel>,
    pub federation_state: i32,
}

impl View for DetailView {
    type V = DetailViewModel;

    open spec fn view(&self) -> DetailViewModel {
        DetailViewModel {
            artwork: opt_view(self.artwork),
            title: self.title@,
            subtitle: self.subtitle@,
            release_type: self.release_type@,
            main_artists: views(self.main_artists@),
            contributors: views(self.contributors@),
            tracks: views(self.tracks@),
            federation_state: self.federation_state,
        }
    }
}

/// All pages of the catalog.
#[derive(Debug, PartialEq)]
pub struct CatalogView {
    pub releases: Vec<ReleaseView>,
    pub artists: Vec<ArtistView>,
    pub artist_albums: Vec<ReleaseView>,
    pub artist_other_releases: Vec<ReleaseView>,
    pub artist_featured_tracks: Vec<TrackView>,
    pub recent: Vec<TrackView>,
    pub playlist_title: String,
    pub playlist_tracks: Vec<TrackView>,
}

pub struct CatalogViewModel {
    pub releases: Seq<ReleaseViewModel>,
    pub artists: Seq<ArtistViewModel>,
    pub artist_albums: Seq<ReleaseViewModel>,
    pub artist_other_releases: Seq<ReleaseViewModel>,
    pub artist_featured_tracks: Seq<TrackViewModel>,
    pub recent: Seq<TrackViewModel>,
    pub playlist_title: Seq<char>,
    pub playlist_tracks: Seq<TrackViewModel>,
}

impl View for CatalogView {
    type V = CatalogViewModel;

    open spec fn view(&self) -> CatalogViewModel {
        CatalogViewModel {
            releases: views(self.releases@),
            artists: views(self.artists@),
            artist_albums: views(self.artist_albums@),
            artist_other_releases: views(self.artist_other_releases@),
            artist_featured_tracks: views(self.artist_featured_tracks@),
            recent: views(self.recent@),
            playlist_title: self.playlist_title@,
            playlist_tracks: views(self.playlist_tracks@),
        }
    }
}

/// What is playing.
#[derive(Debug, PartialEq)]
pub struct CurrentView {
    pub title: String,
    pub artists: Vec<ArtistLinkView>,
    pub metadata: String,
    pub release: String,
    pub release_key: String,
    pub artwork: Option<String>,
}

pub struct CurrentViewModel {
    pub title: Seq<char>,
    pub artists: Seq<ArtistLinkViewModel>,
    pub metadata: Seq<char>,
    pub release: Seq<char>,
    pub release_key: Seq<char>,
    pub artwork: Option<Seq<char>>,
}

impl View for CurrentView {
    type V = CurrentViewModel;

    open spec fn view(&self) -> CurrentViewModel {
        CurrentViewModel {
            title: self.title@,
            artists: views(self.artists@),
            metadata: self.metadata@,
            release: self.release@,
            release_key: self.release_key@,
            artwork: opt_view(self.artwork),
        }
    }
}

/// All that is known of a track.
#[derive(Debug, PartialEq)]
pub struct TrackInfoView {
    pub title: String,
    pub artists: Vec<ArtistLinkView>,
    pub release: String,
    pub duration: String,
    pub format: String,
    pub quality: String,
    pub source: String,
    pub content_id: String,
    pub path: String,
    pub artwork: Option<String>,
}

pub struct TrackInfoViewModel {
    pub title: Seq<char>,
    pub artists: Seq<ArtistLinkViewModel>,
    pub release: Seq<char>,
    pub duration: Seq<char>,
    pub format: Seq<char>,
    pub quality: Seq<char>,
    pub source: Seq<char>,
    pub content_id: Seq<char>,
    pub path: Seq<char>,
    pub artwork: Option<Seq<char>>,
}

impl View for TrackInfoView {
    type V = TrackInfoViewModel;

    open spec fn view(&self) -> TrackInfoViewModel {
        TrackInfoViewModel {
            title: self.title@,
            artists: views(self.artists@),
            release: self.release@,
            duration: self.duration@,
            format: self.format@,
            quality: self.quality@,
            source: self.source@,
            content_id: self.content_id@,
            path: self.path@,
            artwork: opt_view(self.artwork),
        }
    }
}

/// A line of text is never narrower than this.
pub const MIN_LINE_WIDTH: u64 = 220;

/// How wide a name is, in pixels, with the comma behind it where one follows.
pub open spec fn name_width(name: Seq<char>, followed: bool) -> int {
    let glyphs = if name.len() > 65_535 {
        65_535
    } else {
        name.len() as int
    };
    glyphs * 7 + if followed {
        3int
    } else {
        0int
    }
}

pub open spec fn line_width(width: u32) -> int {
    if width < MIN_LINE_WIDTH {
        MIN_LINE_WIDTH as int
    } else {
        width as int
    }
}

pub open spec fn contributor(artist: ArtistRefModel, followed: bool, first: bool) -> ArtistLinkViewModel {
    ArtistLinkViewModel {
        key: artist_key_text(artist.key),
        name: if followed {
            artist.name + ","@
        } else {
            artist.name
        },
        prefix: if first {
            ""@
        } else {
            " "@
        },
    }
}

/// The lines so far, the last of them open, and how wide that one is.
pub struct Layout {
    pub lines: Seq<Seq<ArtistLinkViewModel>>,
    pub open: Seq<ArtistLinkViewModel>,
    pub width: int,
}

/// The layout of the first `n` contributors: a name goes onto the open line
/// where it fits, else onto a new one.
pub open spec fn laid_out(artists: Seq<ArtistRefModel>, n: int, width: int) -> Layout
    decreases n,
{
    if n <= 0 {
        Layout { lines: Seq::empty(), open: Seq::empty(), width: 0 }
    } else {
        let before = laid_out(artists, n - 1, width);
        let followed = n < artists.len();
        let wide = name_width(artists[n - 1].name, followed);
        if before.open.len() == 0 || before.width + 9 + wide > width {
            Layout {
                lines: if before.open.len() == 0 {
                    before.lines
                } else {
                    before.lines.push(before.open)
                },
                open: seq![contributor(artists[n - 1], followed, true)],
                width: wide,
            }
        } else {
            Layout {
                lines: before.lines,
                open: before.open.push(contributor(artists[n - 1], followed, false)),
                width: before.width + 9 + wide,
            }
        }
    }
}

pub open spec fn as_lines(lines: Seq<Seq<ArtistLinkViewModel>>) -> Seq<ContributorLineModel> {
    Seq::new(lines.len(), |i: int| ContributorLineModel { artists: lines[i] })
}

/// The contributors in lines of a width.
pub open spec fn in_lines(artists: Seq<ArtistRefModel>, width: u32) -> Seq<ContributorLineModel> {
    let layout = laid_out(artists, artists.len() as int, line_width(width));
    as_lines(
        if layout.open.len() == 0 {
            layout.lines
        } else {
            layout.lines.push(layout.open)
        },
    )
}

proof fn lemma_layout_width(artists: Seq<ArtistRefModel>, n: int, width: u32)
    ensures
        0 <= laid_out(artists, n, line_width(width)).width <= line_width(width) + 458_748,
    decreases n,
{
    if n > 0 {
        lemma_layout_width(artists, n - 1, width);
    }
}

/// Lays the contributors out in lines of a width in pixels.
pub fn contributor_lines(artists: &Vec<ArtistRef>, width: u32) -> (r: Vec<ContributorLine>)
    ensures
        views(r@) == in_lines(views(artists@), width),
{
    let ghost all = views(artists@);
    let ghost wide = line_width(width);
    let limit: u64 = if (width as u64) < MIN_LINE_WIDTH {
        MIN_LINE_WIDTH
    } else {
        width as u64
    };
    let mut lines: Vec<ContributorLine> = Vec::new();
    let mut open: Vec<ArtistLinkView> = Vec::new();
    let mut open_width: u64 = 0;
    let mut i: usize = 0;
    proof {
        assert(views(lines@) =~= as_lines(laid_out(all, 0, wide).lines));
        assert(views(open@) =~= laid_out(all, 0, wide).open);
    }
    while i < artists.len()
        invariant
            i <= artists.len() == all.len(),
            all == views(artists@),
            wide == line_width(width),
            limit == wide,
            views(lines@) == as_lines(laid_out(all, i as int, wide).lines),
            views(open@) == laid_out(all, i as int, wide).open,
            open_width == laid_out(all, i as int, wide).width,
        decreases artists.len() - i,
    {
        let ghost before = laid_out(all, i as int, wide);
        proof {
            lemma_layout_width(all, i as int, width);
        }
        let followed = i + 1 < artists.len();
        let count = chars_of(artists[i].name.as_str()).len();
        let glyphs: u64 = if count > 65_535 {
            65_535
        } else {
            count as u64
        };
        let name_wide: u64 = glyphs * 7 + if followed {
            3u64
        } else {
            0u64
        };
        let was_empty = open.len() == 0;
        let breaks = was_empty || open_width + 9 + name_wide > limit;
        if breaks {
            if !was_empty {
                let mut line: Vec<ArtistLinkView> = Vec::new();
                std::mem::swap(&mut line, &mut open);
                lines.push(ContributorLine { artists: line });
                proof {
                    assert(views(lines@) =~= as_lines(before.lines.push(before.open)));
                }
            }
            open_width = name_wide;
        } else {
            open_width = open_width + 9 + name_wide;
        }
        let mut name = artists[i].name.clone();
        if followed {
            name.push_str(",");
        }
        open.push(
            ArtistLinkView {
                key: format_artist_key(&artists[i].key),
                name,
                prefix: (if breaks {
                    ""
                } else {
                    " "
                }).to_owned(),
            },
        );
        i += 1;
        proof {
            assert(views(open@) =~= laid_out(all, i as int, wide).open);
        }
    }
    if open.len() > 0 {
        let ghost before = laid_out(all, i as int, wide);
        lines.push(ContributorLine { artists: open });
        proof {
            assert(views(lines@) =~= as_lines(before.lines.push(before.open)));
        }
    }
    lines
}

/// What the window shows wraps in nothing but lines: put one behind the other,
/// they are the contributors in order.
pub open spec fn flattened(lines: Seq<Seq<ArtistLinkViewModel>>) -> Seq<ArtistLinkViewModel>
    decreases lines.len(),
{
    if lines.len() == 0 {
        Seq::empty()
    } else {
        flattened(lines.drop_last()) + lines.last()
    }
}

/// Every contributor stands on exactly one line, in order.
pub proof fn wrapping_loses_nobody(artists: Seq<ArtistRefModel>, n: int, width: int)
    requires
        0 <= n <= artists.len(),
    ensures
        ({
            let layout = laid_out(artists, n, width);
            let shown = flattened(layout.lines) + layout.open;
            &&& shown.len() == n
            &&& forall|i: int|
                0 <= i < n ==> (#[trigger] shown[i]).key == artist_key_text(artists[i].key)
        }),
    decreases n,
{
    if n > 0 {
        wrapping_loses_nobody(artists, n - 1, width);
        let before = laid_out(artists, n - 1, width);
        let after = laid_out(artists, n, width);
        let old_shown = flattened(before.lines) + before.open;
        let shown = flattened(after.lines) + after.open;
        if after.lines.len() > before.lines.len() {
            assert(after.lines.drop_last() =~= before.lines);
        }
        assert(shown =~= old_shown.push(after.open.last()));
    }
}

pub open spec fn screen_name(screen: Screen) -> Seq<char> {
    match screen {
        Screen::Home => "home"@,
        Screen::Search => "search"@,
        Screen::Library => "library"@,
        Screen::Artist(_) => "artist"@,
        Screen::Release(_, _) => "release"@,
        Screen::Playlist(_) => "playlist"@,
    }
}

/// What is wrong: what just happened, or else playback, or else the settings.
pub open spec fn message(transient: Option<Seq<char>>, backend: BackendModel) -> Seq<char> {
    match transient {
        Some(error) => error,
        None => match backend.playback_error {
            Some(error) => error,
            None => match backend.settings_error {
                Some(error) => error,
                None => Seq::empty(),
            },
        },
    }
}

/// The frame of the window in a state.
pub open spec fn shown_shell(state: AppState) -> ShellViewModel {
    let backend = state.backend@;
    ShellViewModel {
        active_screen: screen_name(state.frontend.screen),
        can_go_back: state.frontend.navigation_history@.len() > 0,
        can_go_forward: state.frontend.navigation_forward@.len() > 0,
        breadcrumbs: way_to(backend, state.frontend.screen),
        playlist_picker_open: state.frontend.playlist_picker_track is Some,
        network_busy: network_status(
            backend.settings.federation_enabled,
            backend.federation_activity,
        ).0,
        network_text: network_status(
            backend.settings.federation_enabled,
            backend.federation_activity,
        ).1,
        error_message: message(opt_view(state.transient_error), backend),
    }
}

fn first_text(a: &Option<String>, b: &Option<String>) -> (r: String)
    ensures
        r@ == (match opt_view(*a) {
            Some(text) => text,
            None => match opt_view(*b) {
                Some(text) => text,
                None => Seq::empty(),
            },
        }),
{
    match a {
        Some(text) => text.clone(),
        None => match b {
            Some(text) => text.clone(),
            None => String::new(),
        },
    }
}

/// The frame of the window.
pub fn render_shell(state: &AppState) -> (r: ShellView)
    ensures
        r@ == shown_shell(*state),
{
    let backend = &state.backend;
    let (network_busy, network_text) = federation_status(
        backend.settings.federation_enabled,
        &backend.federation_activity,
    );
    ShellView {
        active_screen: (match &state.frontend.screen {
            Screen::Home => "home",
            Screen::Search => "search",
            Screen::Library => "library",
            Screen::Artist(_) => "artist",
            Screen::Release(_, _) => "release",
            Screen::Playlist(_) => "playlist",
        }).to_owned(),
        can_go_back: state.frontend.navigation_history.len() > 0,
        can_go_forward: state.frontend.navigation_forward.len() > 0,
        breadcrumbs: breadcrumbs(backend, &state.frontend.screen),
        playlist_picker_open: state.frontend.playlist_picker_track.is_some(),
        network_busy,
        network_text,
        error_message: match &state.transient_error {
            Some(error) => error.clone(),
            None => first_text(&backend.playback_error, &backend.settings_error),
        },
    }
}

/// The listener's devices as they are shown.
#[derive(Debug, PartialEq)]
pub struct DeviceShellView {
    pub devices: Vec<DeviceView>,
    pub pairings: Vec<PairingView>,
    pub role_label: String,
    pub is_active: bool,
    pub active_label: String,
    pub group_label: String,
    pub invite: String,
    pub busy: bool,
    pub status: String,
}

pub struct DeviceShellViewModel {
    pub devices: Seq<DeviceViewModel>,
    pub pairings: Seq<PairingViewModel>,
    pub role_label: Seq<char>,
    pub is_active: bool,
    pub active_label: Seq<char>,
    pub group_label: Seq<char>,
    pub invite: Seq<char>,
    pub busy: bool,
    pub status: Seq<char>,
}

impl View for DeviceShellView {
    type V = DeviceShellViewModel;

    open spec fn view(&self) -> DeviceShellViewModel {
        DeviceShellViewModel {
            devices: views(self.devices@),
            pairings: views(self.pairings@),
            role_label: self.role_label@,
            is_active: self.is_active,
            active_label: self.active_label@,
            group_label: self.group_label@,
            invite: self.invite@,
            busy: self.busy,
            status: self.status@,
        }
    }
}

/// The devices in a state, with what went wrong last, or else when they were
/// last in step.
pub open spec fn shown_device_shell(devices: ConnectedDevicesModel) -> DeviceShellViewModel {
    DeviceShellViewModel {
        devices: shown_devices(devices.devices),
        pairings: shown_pairings(devices.group_id, devices.pending_pairings),
        role_label: match devices.role {
            DevicePlaybackRole::Active => "Active device"@,
            DevicePlaybackRole::Control => "Control device"@,
        },
        is_active: devices.role == DevicePlaybackRole::Active,
        active_label: devices.active_device_name,
        group_label: "Network · "@ + devices.group_id,
        invite: match devices.invite {
            Some(invite) => invite,
            None => Seq::empty(),
        },
        busy: devices.busy,
        status: match devices.error {
            Some(error) => error,
            None => match devices.last_sync {
                Some(label) => label,
                None => Seq::empty(),
            },
        },
    }
}

pub fn render_device_shell(devices: &ConnectedDevicesSnapshot) -> (r: DeviceShellView)
    ensures
        r@ == shown_device_shell(devices@),
{
    let mut group_label = "Network · ".to_owned();
    group_label.push_str(devices.group_id.as_str());
    DeviceShellView {
        devices: devices_to_views(&devices.devices),
        pairings: pairings_to_views(devices.group_id.as_str(), &devices.pending_pairings),
        role_label: (match devices.role {
            DevicePlaybackRole::Active => "Active device",
            DevicePlaybackRole::Control => "Control device",
        }).to_owned(),
        is_active: devices.role == DevicePlaybackRole::Active,
        active_label: devices.active_device_name.clone(),
        group_label,
        invite: match &devices.invite {
            Some(invite) => invite.clone(),
            None => String::new(),
        },
        busy: devices.busy,
        status: first_text(&devices.error, &devices.last_sync),
    }
}

/// What a search found, as it is shown.
#[derive(Debug, PartialEq)]
pub struct SearchView {
    pub artists: Vec<ArtistView>,
    pub releases: Vec<ReleaseView>,
    pub tracks: Vec<TrackView>,
}

pub struct SearchViewModel {
    pub artists: Seq<ArtistViewModel>,
    pub releases: Seq<ReleaseViewModel>,
    pub tracks: Seq<TrackViewModel>,
}

impl View for SearchView {
    type V = SearchViewModel;

    open spec fn view(&self) -> SearchViewModel {
        SearchViewModel {
            artists: views(self.artists@),
            releases: views(self.releases@),
            tracks: views(self.tracks@),
        }
    }
}

/// The key of the track that is current.
pub open spec fn current_key(queue: QueueModel) -> Option<TrackKeyModel> {
    match queue.current_item() {
        Some(item) => Some(item.track.key),
        None => None,
    }
}

fn current_track_key(backend: &BackendSnapshot) -> (r: Option<&TrackKey>)
    requires
        backend.queue@.wf(),
    ensures
        ref_view(r) == current_key(backend@.queue),
{
    match backend.queue.current() {
        Some(item) => Some(&item.track.key),
        None => None,
    }
}

/// What the last search found.
pub open spec fn shown_search(backend: BackendModel) -> SearchViewModel {
    let results = backend.search.results;
    SearchViewModel {
        artists: shown_artists(results.artists),
        releases: shown_releases(results.releases),
        tracks: shown_tracks(results.tracks, false, current_key(backend.queue)),
    }
}

pub fn render_search(backend: &BackendSnapshot) -> (r: SearchView)
    requires
        backend.queue@.wf(),
    ensures
        r@ == shown_search(backend@),
{
    let results = &backend.search.results;
    SearchView {
        artists: artists_to_views(&results.artists),
        releases: releases_to_views(&results.releases),
        tracks: tracks_to_views(&results.tracks, current_track_key(backend)),
    }
}

/// The page of the chosen artist or release.
pub open spec fn shown_detail(backend: BackendModel, screen: Screen, width: u32) -> DetailViewModel {
    let artist = chosen_artist(backend, screen);
    let release = chosen_release(backend, screen);
    let preferred = match screen {
        Screen::Release(_, preferred) => opt_view(preferred),
        _ => None,
    };
    DetailViewModel {
        artwork: picture_path(
            match artist {
                Some(artist) => if artist.artwork is Some {
                    artist.artwork
                } else {
                    match release {
                        Some(release) => release.artwork,
                        None => None,
                    }
                },
                None => match release {
                    Some(release) => release.artwork,
                    None => None,
                },
            },
        ),
        title: match artist {
            Some(artist) => artist.name,
            None => match release {
                Some(release) => release.title,
                None => Seq::empty(),
            },
        },
        subtitle: match artist {
            Some(artist) => extent(artist),
            None => Seq::empty(),
        },
        release_type: match release {
            Some(release) => type_label(release.release_type),
            None => Seq::empty(),
        },
        main_artists: match release {
            Some(release) => links(main_credit(release, preferred), ""@),
            None => Seq::empty(),
        },
        contributors: match release {
            Some(release) => in_lines(other_credits(release, preferred), width),
            None => Seq::empty(),
        },
        tracks: match release {
            Some(release) => shown_tracks(release.tracks, true, current_key(backend.queue)),
            None => Seq::empty(),
        },
        federation_state: match release {
            Some(release) => federation_share(release),
            None => 0,
        },
    }
}

/// The page of the chosen artist or release, its contributors in lines of a
/// width.
pub fn render_catalog_detail(backend: &BackendSnapshot, screen: &Screen, width: u32) -> (r: DetailView)
    requires
        backend.queue@.wf(),
    ensures
        r@ == shown_detail(backend@, *screen, width),
{
    let artist = selected_artist(backend, screen);
    let release = selected_release(backend, screen);
    let preferred = match screen {
        Screen::Release(_, preferred) => preferred.as_ref(),
        _ => None,
    };
    let current = current_track_key(backend);
    let artist_picture = match artist {
        Some(artist) => artist.artwork.uri.clone(),
        None => None,
    };
    let (title, subtitle) = match artist {
        Some(artist) => (artist.name.clone(), artist_extent(artist)),
        None => match &release {
            Some(release) => (release.title.clone(), String::new()),
            None => (String::new(), String::new()),
        },
    };
    match &release {
        Some(release) => {
            let (main, others) = release_artist_credits(release, preferred);
            let picture = if artist_picture.is_some() {
                artist_picture
            } else {
                release.artwork.uri.clone()
            };
            DetailView {
                artwork: artwork_path(&picture),
                title,
                subtitle,
                release_type: release_type_label(release.release_type.as_str()),
                main_artists: links_to(&main, ""),
                contributors: contributor_lines(&others, width),
                tracks: release_tracks_to_views(&release.tracks, current),
                federation_state: release_federation_state(release),
            }
        },
        None => {
            let r = DetailView {
                artwork: artwork_path(&artist_picture),
                title,
                subtitle,
                release_type: String::new(),
                main_artists: Vec::new(),
                contributors: Vec::new(),
                tracks: Vec::new(),
                federation_state: 0,
            };
            proof {
                assert(r@.main_artists =~= Seq::empty());
                assert(r@.contributors =~= Seq::empty());
                assert(r@.tracks =~= Seq::empty());
            }
            r
        },
    }
}

pub open spec fn is_album(release: ReleaseModel) -> bool {
    ascii_lower(release.release_type) == "album"@
}

pub open spec fn albums() -> spec_fn(ReleaseModel) -> bool {
    |release: ReleaseModel| is_album(release)
}

pub open spec fn no_albums() -> spec_fn(ReleaseModel) -> bool {
    |release: ReleaseModel| !is_album(release)
}

/// The pages of the catalog.
pub open spec fn shown_catalog(backend: BackendModel, screen: Screen) -> CatalogViewModel {
    let library = library_at_hand(backend);
    let artist = chosen_artist(backend, screen);
    let playlist = chosen_playlist(backend, screen);
    let current = current_key(backend.queue);
    CatalogViewModel {
        releases: match library {
            Some(library) => shown_releases(library.featured_releases),
            None => Seq::empty(),
        },
        artists: match library {
            Some(library) => shown_artists(library.artists),
            None => Seq::empty(),
        },
        artist_albums: match artist {
            Some(artist) => shown_releases(kept(releases_by(backend, artist), albums())),
            None => Seq::empty(),
        },
        artist_other_releases: match artist {
            Some(artist) => shown_releases(kept(releases_by(backend, artist), no_albums())),
            None => Seq::empty(),
        },
        artist_featured_tracks: match artist {
            Some(artist) => shown_tracks(guest_tracks(backend, artist), false, current),
            None => Seq::empty(),
        },
        recent: match library {
            Some(library) => shown_tracks(library.recently_played, false, current),
            None => Seq::empty(),
        },
        playlist_title: match playlist {
            Some(playlist) => playlist.title,
            None => Seq::empty(),
        },
        playlist_tracks: match playlist {
            Some(playlist) => shown_tracks(playlist.tracks, false, current),
            None => Seq::empty(),
        },
    }
}

fn split_albums(releases: Vec<Release>) -> (r: (Vec<Release>, Vec<Release>))
    ensures
        views(r.0@) == kept(views(releases@), albums()),
        views(r.1@) == kept(views(releases@), no_albums()),
{
    let ghost all = views(releases@);
    let mut yes: Vec<Release> = Vec::new();
    let mut no: Vec<Release> = Vec::new();
    let mut rest = releases;
    let ghost mut done: int = 0;
    proof {
        assert(kept(all.take(0), albums()) =~= Seq::empty());
        assert(kept(all.take(0), no_albums()) =~= Seq::empty());
    }
    while rest.len() > 0
        invariant
            0 <= done,
            done + rest.len() == all.len(),
            views(rest@) == all.skip(done),
            views(yes@) == kept(all.take(done), albums()),
            views(no@) == kept(all.take(done), no_albums()),
        decreases rest.len(),
    {
        let release = rest.remove(0);
        proof {
            assert(release@ == all[done]);
            assert(all.take(done + 1).drop_last() =~= all.take(done));
            assert(views(rest@) =~= all.skip(done + 1));
        }
        if release.is_album() {
            yes.push(release);
        } else {
            no.push(release);
        }
        proof {
            done = done + 1;
        }
    }
    proof {
        assert(all.take(done) =~= all);
    }
    (yes, no)
}

/// The pages of the catalog.
pub fn render_catalog(backend: &BackendSnapshot, screen: &Screen) -> (r: CatalogView)
    requires
        backend.queue@.wf(),
    ensures
        r@ == shown_catalog(backend@, *screen),
{
    let current = current_track_key(backend);
    let nothing: Vec<TrackView> = Vec::new();
    let nobody: Vec<ArtistView> = Vec::new();
    let none: Vec<ReleaseView> = Vec::new();
    proof {
        assert(views(nothing@) =~= Seq::empty());
        assert(views(nobody@) =~= Seq::empty());
        assert(views(none@) =~= Seq::empty());
    }
    let (releases, artists, recent) = match ready_library(backend) {
        Some(library) => (
            releases_to_views(&library.featured_releases),
            artists_to_views(&library.artists),
            tracks_to_views(&library.recently_played, current),
        ),
        None => (none, nobody, nothing),
    };
    let nothing: Vec<TrackView> = Vec::new();
    let none: Vec<ReleaseView> = Vec::new();
    let no_more: Vec<ReleaseView> = Vec::new();
    proof {
        assert(views(nothing@) =~= Seq::empty());
        assert(views(none@) =~= Seq::empty());
        assert(views(no_more@) =~= Seq::empty());
    }
    let (artist_albums, artist_other_releases, artist_tracks) = match selected_artist(
        backend,
        screen,
    ) {
        Some(artist) => {
            let (yes, no) = split_albums(artist_releases(backend, artist));
            (
                releases_to_views(&yes),
                releases_to_views(&no),
                tracks_to_views(&artist_featured_tracks(backend, artist), current),
            )
        },
        None => (none, no_more, nothing),
    };
    let nothing: Vec<TrackView> = Vec::new();
    proof {
        assert(views(nothing@) =~= Seq::empty());
    }
    let (playlist_title, playlist_tracks) = match selected_playlist(backend, screen) {
        Some(playlist) => (
            playlist.title.clone(),
            tracks_to_views(&playlist.tracks, current),
        ),
        None => (String::new(), nothing),
    };
    CatalogView {
        releases,
        artists,
        artist_albums,
        artist_other_releases,
        artist_featured_tracks: artist_tracks,
        recent,
        playlist_title,
        playlist_tracks,
    }
}

/// What is playing; nothing where nothing is.
pub open spec fn shown_current(queue: QueueModel) -> CurrentViewModel {
    match queue.current_item() {
        Some(item) => CurrentViewModel {
            title: item.track.title,
            artists: artist_links(item.track),
            metadata: metadata_label(item.track),
            release: item.track.release,
            release_key: release_key_text(item.track.release_id),
            artwork: picture_path(item.track.cover_uri),
        },
        None => CurrentViewModel {
            title: Seq::empty(),
            artists: Seq::empty(),
            metadata: Seq::empty(),
            release: Seq::empty(),
            release_key: Seq::empty(),
            artwork: None,
        },
    }
}

pub fn render_current_track(backend: &BackendSnapshot) -> (r: CurrentView)
    requires
        backend.queue@.wf(),
    ensures
        r@ == shown_current(backend@.queue),
{
    match backend.queue.current() {
        Some(item) => CurrentView {
            title: item.track.title.clone(),
            artists: track_artist_links(&item.track),
            metadata: track_metadata_label(&item.track),
            release: item.track.release.clone(),
            release_key: format_release_key(&item.track.release_id),
            artwork: artwork_path(&item.track.cover_uri),
        },
        None => {
            let r = CurrentView {
                title: String::new(),
                artists: Vec::new(),
                metadata: String::new(),
                release: String::new(),
                release_key: String::new(),
                artwork: None,
            };
            proof {
                assert(r@.artists =~= Seq::empty());
            }
            r
        },
    }
}

/// The place of a track on its release.
pub open spec fn place_label(track: TrackModel) -> Seq<char> {
    let disc = match track.disc_number {
        Some(n) => " · disc "@ + decimal(n as nat),
        None => Seq::empty(),
    };
    let number = match track.track_number {
        Some(n) => " · track "@ + decimal(n as nat),
        None => Seq::empty(),
    };
    track.release + disc + number
}

fn track_place(track: &Track) -> (r: String)
    ensures
        r@ == place_label(track@),
{
    let mut r = track.release.clone();
    let ghost release = r@;
    if let Some(n) = track.disc_number {
        let mut disc = " · disc ".to_owned();
        disc.push_str(decimal_text(n as u64).as_str());
        r.push_str(disc.as_str());
    }
    let ghost with_disc = r@;
    if let Some(n) = track.track_number {
        let mut number = " · track ".to_owned();
        number.push_str(decimal_text(n as u64).as_str());
        r.push_str(number.as_str());
    }
    proof {
        if track.disc_number is None {
            assert(release + Seq::<char>::empty() =~= release);
        }
        if track.track_number is None {
            assert(with_disc + Seq::<char>::empty() =~= with_disc);
        }
    }
    r
}

/// All that is known of a track. Its length in seconds and its sample rate come
/// as they are shown.
pub open spec fn shown_info(track: TrackModel, seconds: Seq<char>, rate: Option<Seq<char>>) -> TrackInfoViewModel {
    TrackInfoViewModel {
        title: track.title,
        artists: artist_links(track),
        release: place_label(track),
        duration: clock_text(track.duration_nanos) + " ("@ + seconds + " s)"@,
        format: uppercase(
            match track.audio_format {
                Some(format) => format,
                None => Seq::empty(),
            },
        ),
        quality: quality_label(track, rate),
        source: match track.audio_source {
            AudioSourceModel::LocalFile(_) => "Local library"@,
            AudioSourceModel::Federation { .. } => "Federation"@,
        },
        content_id: match track.key.content_id {
            Some(id) => id,
            None => Seq::empty(),
        },
        path: match track.audio_source {
            AudioSourceModel::LocalFile(path) => path,
            AudioSourceModel::Federation { peer_id, .. } => "peer "@ + peer_id,
        },
        artwork: picture_path(track.cover_uri),
    }
}

pub fn render_track_info(track: &Track, seconds: &str, rate: Option<String>) -> (r: TrackInfoView)
    ensures
        r@ == shown_info(track@, seconds@, opt_view(rate)),
{
    let mut duration = duration_label(track.duration_nanos);
    duration.push_str(" (");
    duration.push_str(seconds);
    duration.push_str(" s)");
    let format = match &track.audio_format {
        Some(format) => format.clone(),
        None => String::new(),
    };
    TrackInfoView {
        title: track.title.clone(),
        artists: track_artist_links(track),
        release: track_place(track),
        duration,
        format: format.as_str().to_uppercase(),
        quality: track_quality_label(track, rate),
        source: (match &track.audio_source {
            AudioSource::LocalFile(_) => "Local library",
            AudioSource::Federation { .. } => "Federation",
        }).to_owned(),
        content_id: match track.key.content_id() {
            Some(id) => id.as_str().to_owned(),
            None => String::new(),
        },
        path: match &track.audio_source {
            AudioSource::LocalFile(path) => path.clone(),
            AudioSource::Federation { peer_id, .. } => {
                let mut path = "peer ".to_owned();
                path.push_str(peer_id.as_str());
                path
            },
        },
        artwork: artwork_path(&track.cover_uri),
    }
}

/// The track whose information is open.
pub fn track_with_info(state: &AppState) -> (r: Option<&Track>)
    ensures
        ref_view(r) == (match opt_view(state.frontend.track_info) {
            Some(key) => found(tracks_at_hand(state.backend@), has_key(key)),
            None => None,
        }),
{
    match &state.frontend.track_info {
        Some(key) => find_shown_track(&state.backend, key),
        None => None,
    }
}

/// The number by which the window knows a repeat mode.
pub fn repeat_mode(repeat: PlaybackRepeat) -> (r: i32)
    ensures
        r == (match repeat {
            PlaybackRepeat::Off => 0i32,
            PlaybackRepeat::One => 1i32,
            PlaybackRepeat::All => 2i32,
        }),
{
    match repeat {
        PlaybackRepeat::Off => 0,
        PlaybackRepeat::One => 1,
        PlaybackRepeat::All => 2,
    }
}

} // verus!
