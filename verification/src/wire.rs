//! Playback state as the listener's devices tell it to each other.
use crate::api::{DevicePlaybackRole, PlaybackRepeat, PlaybackStatus, UNIT};
use crate::catalog::{
    artist_names, content_ids_are_normalized, is_content_id, names_of, ArtistKey,
    ArtistKeyModel, ArtistRef, ArtistRefModel, AudioSource, AudioSourceModel, ContentId, ReleaseKey,
    ReleaseKeyModel, Track, TrackKey, TrackKeyModel, TrackModel,
};
use crate::merge::NameKeys;
use crate::names::{is_name_fn, key_of, keys_by};
use crate::text::{ascii_lower, join, joined};
use crate::views::{opt_view, views};
use vstd::prelude::*;

verus! {

broadcast use crate::views::group_views;

/// What is known of a track that a peer publishes.
#[derive(Debug, PartialEq)]
pub struct SyncedFedTrack {
    pub item_id: String,
    pub owner: String,
    pub title: String,
    pub artist_names: Vec<String>,
    pub featured_artist_names: Vec<String>,
    pub year: Option<i32>,
    pub duration_seconds: Option<i64>,
    pub content_id: String,
    pub release_title: Option<String>,
    pub track_number: Option<i32>,
    pub disc_number: Option<i32>,
}

pub struct SyncedFedTrackModel {
    pub item_id: Seq<char>,
    pub owner: Seq<char>,
    pub title: Seq<char>,
    pub artist_names: Seq<Seq<char>>,
    pub featured_artist_names: Seq<Seq<char>>,
    pub year: Option<i32>,
    pub duration_seconds: Option<i64>,
    pub content_id: Seq<char>,
    pub release_title: Option<Seq<char>>,
    pub track_number: Option<i32>,
    pub disc_number: Option<i32>,
}

impl View for SyncedFedTrack {
    type V = SyncedFedTrackModel;

    open spec fn view(&self) -> SyncedFedTrackModel {
        SyncedFedTrackModel {
            item_id: self.item_id@,
            owner: self.owner@,
            title: self.title@,
            artist_names: views(self.artist_names@),
            featured_artist_names: views(self.featured_artist_names@),
            year: self.year,
            duration_seconds: self.duration_seconds,
            content_id: self.content_id@,
            release_title: opt_view(self.release_title),
            track_number: self.track_number,
            disc_number: self.disc_number,
        }
    }
}

impl Clone for SyncedFedTrack {
    fn clone(&self) -> (r: Self)
        ensures
            r@ == self@,
    {
        let r = SyncedFedTrack {
            item_id: self.item_id.clone(),
            owner: self.owner.clone(),
            title: self.title.clone(),
            artist_names: self.artist_names.clone(),
            featured_artist_names: self.featured_artist_names.clone(),
            year: self.year,
            duration_seconds: self.duration_seconds,
            content_id: self.content_id.clone(),
            release_title: self.release_title.clone(),
            track_number: self.track_number,
            disc_number: self.disc_number,
        };
        proof {
            assert(r@.artist_names =~= self@.artist_names);
            assert(r@.featured_artist_names =~= self@.featured_artist_names);
        }
        r
    }
}

/// A track of the queue as another device can make sense of it. The duration
/// is in nanoseconds, zero where it is not known.
#[derive(Debug, PartialEq)]
pub struct PlaybackTrack {
    pub id: i64,
    pub title: String,
    pub track_number: Option<i32>,
    pub disc_number: Option<i32>,
    pub duration_nanos: u64,
    pub artist_names: Vec<String>,
    pub featured_artist_names: Vec<String>,
    pub release_id: i64,
    pub release_title: String,
    pub release_year: Option<i32>,
    pub file_path: String,
    pub content_id: Option<String>,
    pub audio_format: Option<String>,
    pub audio_bitrate: Option<i32>,
    pub audio_sample_rate: Option<i32>,
    pub audio_bit_depth: Option<i32>,
    pub file_size_bytes: Option<i64>,
    pub play_count: i64,
    pub fed: Option<SyncedFedTrack>,
}

pub struct PlaybackTrackModel {
    pub id: i64,
    pub title: Seq<char>,
    pub track_number: Option<i32>,
    pub disc_number: Option<i32>,
    pub duration_nanos: u64,
    pub artist_names: Seq<Seq<char>>,
    pub featured_artist_names: Seq<Seq<char>>,
    pub release_id: i64,
    pub release_title: Seq<char>,
    pub release_year: Option<i32>,
    pub file_path: Seq<char>,
    pub content_id: Option<Seq<char>>,
    pub audio_format: Option<Seq<char>>,
    pub audio_bitrate: Option<i32>,
    pub audio_sample_rate: Option<i32>,
    pub audio_bit_depth: Option<i32>,
    pub file_size_bytes: Option<i64>,
    pub play_count: i64,
    pub fed: Option<SyncedFedTrackModel>,
}

impl View for PlaybackTrack {
    type V = PlaybackTrackModel;

    open spec fn view(&self) -> PlaybackTrackModel {
        PlaybackTrackModel {
            id: self.id,
            title: self.title@,
            track_number: self.track_number,
            disc_number: self.disc_number,
            duration_nanos: self.duration_nanos,
            artist_names: views(self.artist_names@),
            featured_artist_names: views(self.featured_artist_names@),
            release_id: self.release_id,
            release_title: self.release_title@,
            release_year: self.release_year,
            file_path: self.file_path@,
            content_id: opt_view(self.content_id),
            audio_format: opt_view(self.audio_format),
            audio_bitrate: self.audio_bitrate,
            audio_sample_rate: self.audio_sample_rate,
            audio_bit_depth: self.audio_bit_depth,
            file_size_bytes: self.file_size_bytes,
            play_count: self.play_count,
            fed: opt_view(self.fed),
        }
    }
}

impl Clone for PlaybackTrack {
    fn clone(&self) -> (r: Self)
        ensures
            r@ == self@,
    {
        let r = PlaybackTrack {
            id: self.id,
            title: self.title.clone(),
            track_number: self.track_number,
            disc_number: self.disc_number,
            duration_nanos: self.duration_nanos,
            artist_names: self.artist_names.clone(),
            featured_artist_names: self.featured_artist_names.clone(),
            release_id: self.release_id,
            release_title: self.release_title.clone(),
            release_year: self.release_year,
            file_path: self.file_path.clone(),
            content_id: self.content_id.clone(),
            audio_format: self.audio_format.clone(),
            audio_bitrate: self.audio_bitrate,
            audio_sample_rate: self.audio_sample_rate,
            audio_bit_depth: self.audio_bit_depth,
            file_size_bytes: self.file_size_bytes,
            play_count: self.play_count,
            fed: self.fed.clone(),
        };
        proof {
            assert(r@.artist_names =~= self@.artist_names);
            assert(r@.featured_artist_names =~= self@.featured_artist_names);
        }
        r
    }
}

/// The whole state of a player. The position is in nanoseconds, the volume in
/// percent.
#[derive(Debug, PartialEq)]
pub struct PlaybackStateWire {
    pub queue: Vec<PlaybackTrack>,
    pub queue_pos: usize,
    pub playing: bool,
    pub paused: bool,
    pub idle_since_ms: Option<i64>,
    pub position_nanos: i64,
    pub volume: u8,
    pub shuffle: bool,
    pub repeat: PlaybackRepeat,
}

pub struct PlaybackStateWireModel {
    pub queue: Seq<PlaybackTrackModel>,
    pub queue_pos: usize,
    pub playing: bool,
    pub paused: bool,
    pub idle_since_ms: Option<i64>,
    pub position_nanos: i64,
    pub volume: u8,
    pub shuffle: bool,
    pub repeat: PlaybackRepeat,
}

impl View for PlaybackStateWire {
    type V = PlaybackStateWireModel;

    open spec fn view(&self) -> PlaybackStateWireModel {
        PlaybackStateWireModel {
            queue: views(self.queue@),
            queue_pos: self.queue_pos,
            playing: self.playing,
            paused: self.paused,
            idle_since_ms: self.idle_since_ms,
            position_nanos: self.position_nanos,
            volume: self.volume,
            shuffle: self.shuffle,
            repeat: self.repeat,
        }
    }
}

impl Clone for PlaybackStateWire {
    fn clone(&self) -> (r: Self)
        ensures
            r@ == self@,
    {
        let r = PlaybackStateWire {
            queue: self.queue.clone(),
            queue_pos: self.queue_pos,
            playing: self.playing,
            paused: self.paused,
            idle_since_ms: self.idle_since_ms,
            position_nanos: self.position_nanos,
            volume: self.volume,
            shuffle: self.shuffle,
            repeat: self.repeat,
        };
        proof {
            assert(r@.queue =~= self@.queue);
        }
        r
    }
}

/// What a device broadcasts of its playback.
#[derive(Debug, PartialEq)]
pub struct DevicePlayback {
    pub device_id: String,
    pub device_name: String,
    pub active: bool,
    pub updated_at_ms: i64,
    pub state: PlaybackStateWire,
}

pub struct DevicePlaybackModel {
    pub device_id: Seq<char>,
    pub device_name: Seq<char>,
    pub active: bool,
    pub updated_at_ms: i64,
    pub state: PlaybackStateWireModel,
}

impl View for DevicePlayback {
    type V = DevicePlaybackModel;

    open spec fn view(&self) -> DevicePlaybackModel {
        DevicePlaybackModel {
            device_id: self.device_id@,
            device_name: self.device_name@,
            active: self.active,
            updated_at_ms: self.updated_at_ms,
            state: self.state@,
        }
    }
}

impl Clone for DevicePlayback {
    fn clone(&self) -> (r: Self)
        ensures
            r@ == self@,
    {
        DevicePlayback {
            device_id: self.device_id.clone(),
            device_name: self.device_name.clone(),
            active: self.active,
            updated_at_ms: self.updated_at_ms,
            state: self.state.clone(),
        }
    }
}

#[derive(Debug, PartialEq)]
pub enum PlaybackCommand {
    /// Take over this state; `seek` asks for the position too.
    SetState { state: PlaybackStateWire, seek: bool },
    /// Another device became the active one.
    ActiveChanged {
        active_device_id: String,
        active_device_name: String,
        state: PlaybackStateWire,
    },
}

pub enum PlaybackCommandModel {
    SetState { state: PlaybackStateWireModel, seek: bool },
    ActiveChanged {
        active_device_id: Seq<char>,
        active_device_name: Seq<char>,
        state: PlaybackStateWireModel,
    },
}

impl View for PlaybackCommand {
    type V = PlaybackCommandModel;

    open spec fn view(&self) -> PlaybackCommandModel {
        match *self {
            PlaybackCommand::SetState { state, seek } => PlaybackCommandModel::SetState {
                state: state@,
                seek,
            },
            PlaybackCommand::ActiveChanged {
                active_device_id,
                active_device_name,
                state,
            } => PlaybackCommandModel::ActiveChanged {
                active_device_id: active_device_id@,
                active_device_name: active_device_name@,
                state: state@,
            },
        }
    }
}

impl Clone for PlaybackCommand {
    fn clone(&self) -> (r: Self)
        ensures
            r@ == self@,
    {
        match self {
            PlaybackCommand::SetState { state, seek } => PlaybackCommand::SetState {
                state: state.clone(),
                seek: *seek,
            },
            PlaybackCommand::ActiveChanged {
                active_device_id,
                active_device_name,
                state,
            } => PlaybackCommand::ActiveChanged {
                active_device_id: active_device_id.clone(),
                active_device_name: active_device_name.clone(),
                state: state.clone(),
            },
        }
    }
}

/// `n` where an `i32` can hold it.
pub open spec fn narrow_i32(n: Option<u32>) -> Option<i32> {
    match n {
        Some(n) => if n <= i32::MAX {
            Some(n as i32)
        } else {
            None
        },
        None => None,
    }
}

/// `n` where it is not negative.
pub open spec fn widen_u32(n: Option<i32>) -> Option<u32> {
    match n {
        Some(n) => if n >= 0 {
            Some(n as u32)
        } else {
            None
        },
        None => None,
    }
}

pub open spec fn narrow_i64(n: Option<u64>) -> Option<i64> {
    match n {
        Some(n) => if n <= i64::MAX {
            Some(n as i64)
        } else {
            None
        },
        None => None,
    }
}

pub open spec fn widen_u64(n: Option<i64>) -> Option<u64> {
    match n {
        Some(n) => if n >= 0 {
            Some(n as u64)
        } else {
            None
        },
        None => None,
    }
}

pub fn to_i32(n: Option<u32>) -> (r: Option<i32>)
    ensures
        r == narrow_i32(n),
{
    match n {
        Some(n) => if n <= 0x7fff_ffff {
            Some(n as i32)
        } else {
            None
        },
        None => None,
    }
}

pub fn to_u32(n: Option<i32>) -> (r: Option<u32>)
    ensures
        r == widen_u32(n),
{
    match n {
        Some(n) => if n >= 0 {
            Some(n as u32)
        } else {
            None
        },
        None => None,
    }
}

pub fn to_i64(n: Option<u64>) -> (r: Option<i64>)
    ensures
        r == narrow_i64(n),
{
    match n {
        Some(n) => if n <= 0x7fff_ffff_ffff_ffff {
            Some(n as i64)
        } else {
            None
        },
        None => None,
    }
}

pub fn to_u64(n: Option<i64>) -> (r: Option<u64>)
    ensures
        r == widen_u64(n),
{
    match n {
        Some(n) => if n >= 0 {
            Some(n as u64)
        } else {
            None
        },
        None => None,
    }
}

/// The content identifier that a text stands for, in either case.
pub open spec fn content_key(s: Seq<char>) -> Option<Seq<char>> {
    let id = ascii_lower(s);
    if is_content_id(id) {
        Some(id)
    } else {
        None
    }
}

/// Reads a content identifier as `ContentId` does.
pub fn normalize_content_id(value: &str) -> (r: Option<ContentId>)
    ensures
        opt_view(r) == content_key(value@),
{
    match ContentId::parse(value) {
        Ok(id) => Some(id),
        Err(_) => None,
    }
}

/// A content identifier that was read once reads as itself.
pub proof fn normalized_content_stays(s: Seq<char>)
    requires
        content_key(s) is Some,
    ensures
        content_key(content_key(s)->0) == content_key(s),
{
    content_ids_are_normalized(content_key(s)->0);
}

/// The volume in whole percent, rounded to the nearest, full where it is more.
pub open spec fn percent(volume_ppb: u32) -> int {
    if volume_ppb > UNIT {
        100
    } else {
        (volume_ppb + 5_000_000) / 10_000_000
    }
}

pub fn volume_percent(volume_ppb: u32) -> (r: u8)
    ensures
        r == percent(volume_ppb),
        r <= 100,
{
    if volume_ppb > UNIT {
        100
    } else {
        ((volume_ppb + 5_000_000) / 10_000_000) as u8
    }
}

/// The volume that so many percent stand for; more than a hundred are full.
pub open spec fn volume_of(percent: u8) -> u32 {
    if percent > 100 {
        UNIT
    } else {
        (percent * 10_000_000) as u32
    }
}

pub fn percent_volume(percent: u8) -> (r: u32)
    ensures
        r == volume_of(percent),
        r <= UNIT,
{
    if percent > 100 {
        UNIT
    } else {
        percent as u32 * 10_000_000
    }
}

/// A volume sent in percent is read back as the same percent.
pub proof fn percent_survives_the_wire(percent: u8)
    requires
        percent <= 100,
    ensures
        self::percent(volume_of(percent)) == percent,
{
}

/// Main and featured artists in one line.
pub open spec fn artist_line(main: Seq<Seq<char>>, featured: Seq<Seq<char>>) -> Seq<char> {
    if main.len() == 0 && featured.len() == 0 {
        Seq::empty()
    } else if main.len() == 0 {
        "feat. "@ + joined(featured, ", "@)
    } else if featured.len() == 0 {
        joined(main, ", "@)
    } else {
        joined(main, ", "@) + " feat. "@ + joined(featured, ", "@)
    }
}

pub fn playback_artist_line(main: &Vec<String>, featured: &Vec<String>) -> (r: String)
    ensures
        r@ == artist_line(views(main@), views(featured@)),
{
    if main.len() == 0 && featured.len() == 0 {
        String::new()
    } else if main.len() == 0 {
        let mut r = "feat. ".to_owned();
        r.push_str(join(featured, ", ").as_str());
        r
    } else if featured.len() == 0 {
        join(main, ", ")
    } else {
        let mut r = join(main, ", ");
        r.push_str(" feat. ");
        r.push_str(join(featured, ", ").as_str());
        r
    }
}

/// The key of an artist or release that is known by name alone.
pub open spec fn name_id(keys: NameKeys, name: Seq<char>) -> Seq<char> {
    "name:"@ + keys(name)
}

pub fn name_id_of<F: Fn(&str) -> String>(name: &str, names: &F) -> (r: String)
    requires
        is_name_fn(names),
    ensures
        r@ == name_id(keys_by(names), name@),
{
    let mut r = "name:".to_owned();
    r.push_str(key_of(names, name).as_str());
    r
}

/// One credit per name, under the owner's keys.
pub open spec fn named_refs(keys: NameKeys, owner: Seq<char>, names: Seq<Seq<char>>) -> Seq<
    ArtistRefModel,
> {
    Seq::new(
        names.len(),
        |i: int|
            ArtistRefModel {
                key: ArtistKeyModel::Federation { peer_id: owner, id: name_id(keys, names[i]) },
                name: names[i],
            },
    )
}

pub fn refs_by_name<F: Fn(&str) -> String>(
    owner: &str,
    artists: &Vec<String>,
    names: &F,
) -> (r: Vec<ArtistRef>)
    requires
        is_name_fn(names),
    ensures
        views(r@) == named_refs(keys_by(names), owner@, views(artists@)),
{
    let ghost keys = keys_by(names);
    let mut r: Vec<ArtistRef> = Vec::new();
    let mut i: usize = 0;
    while i < artists.len()
        invariant
            is_name_fn(names),
            keys == keys_by(names),
            i <= artists.len(),
            views(r@) == named_refs(keys, owner@, views(artists@)).take(i as int),
        decreases artists.len() - i,
    {
        let reference = ArtistRef {
            key: ArtistKey::Federation {
                peer_id: owner.to_owned(),
                id: name_id_of(artists[i].as_str(), names),
            },
            name: artists[i].clone(),
        };
        r.push(reference);
        i += 1;
        proof {
            assert(views(r@) =~= named_refs(keys, owner@, views(artists@)).take(i as int));
        }
    }
    proof {
        assert(views(r@) =~= named_refs(keys, owner@, views(artists@)));
    }
    r
}

/// What a track that another device plays looks like while only its content
/// is known.
pub open spec fn placeholder(keys: NameKeys, wire: PlaybackTrackModel, content_id: Seq<char>) -> TrackModel {
    TrackModel {
        key: TrackKeyModel {
            local_id: None,
            content_id: Some(content_id),
            federation_identity: None,
        },
        title: wire.title,
        artist: artist_line(wire.artist_names, wire.featured_artist_names),
        artists: named_refs(keys, "content"@, wire.artist_names),
        featured_artists: named_refs(keys, "content"@, wire.featured_artist_names),
        release: wire.release_title,
        release_id: ReleaseKeyModel::Federation {
            peer_id: "content"@,
            id: name_id(keys, wire.release_title),
        },
        duration_nanos: wire.duration_nanos,
        track_number: widen_u32(wire.track_number),
        disc_number: widen_u32(wire.disc_number),
        cover_uri: None,
        audio_format: wire.audio_format,
        audio_bitrate_kbps: widen_u32(wire.audio_bitrate),
        audio_sample_rate_hz: widen_u32(wire.audio_sample_rate),
        audio_bit_depth: widen_u32(wire.audio_bit_depth),
        file_size_bytes: widen_u64(wire.file_size_bytes),
        liked: false,
        audio_source: AudioSourceModel::Federation { peer_id: Seq::empty(), content_id },
    }
}

pub fn portable_playback_placeholder<F: Fn(&str) -> String>(
    wire: &PlaybackTrack,
    content_id: ContentId,
    names: &F,
) -> (r: Track)
    requires
        is_name_fn(names),
    ensures
        r@ == placeholder(keys_by(names), wire@, content_id@),
{
    let r = Track {
        key: TrackKey::remote(content_id.clone()),
        title: wire.title.clone(),
        artist: playback_artist_line(&wire.artist_names, &wire.featured_artist_names),
        artists: refs_by_name("content", &wire.artist_names, names),
        featured_artists: refs_by_name("content", &wire.featured_artist_names, names),
        release: wire.release_title.clone(),
        release_id: ReleaseKey::Federation {
            peer_id: "content".to_owned(),
            id: name_id_of(wire.release_title.as_str(), names),
        },
        duration_nanos: wire.duration_nanos,
        track_number: to_u32(wire.track_number),
        disc_number: to_u32(wire.disc_number),
        cover_uri: None,
        audio_format: wire.audio_format.clone(),
        audio_bitrate_kbps: to_u32(wire.audio_bitrate),
        audio_sample_rate_hz: to_u32(wire.audio_sample_rate),
        audio_bit_depth: to_u32(wire.audio_bit_depth),
        file_size_bytes: to_u64(wire.file_size_bytes),
        liked: false,
        audio_source: AudioSource::Federation { peer_id: String::new(), content_id },
    };
    r
}

/// What a track that another device plays looks like when it tells which peer
/// publishes it.
pub open spec fn published(
    keys: NameKeys,
    wire: PlaybackTrackModel,
    fed: SyncedFedTrackModel,
    content_id: Seq<char>,
) -> TrackModel {
    TrackModel {
        key: TrackKeyModel {
            local_id: None,
            content_id: Some(content_id),
            federation_identity: Some((fed.owner, fed.item_id)),
        },
        artist: joined(wire.artist_names, ", "@),
        artists: named_refs(keys, fed.owner, wire.artist_names),
        featured_artists: named_refs(keys, fed.owner, wire.featured_artist_names),
        release_id: ReleaseKeyModel::Federation {
            peer_id: fed.owner,
            id: name_id(
                keys,
                match fed.release_title {
                    Some(title) => title,
                    None => Seq::empty(),
                },
            ),
        },
        audio_source: AudioSourceModel::Federation { peer_id: fed.owner, content_id },
        ..placeholder(keys, wire, content_id)
    }
}

/// What to play for a track of another device that nothing here knows: the
/// peer's publication where it names one, else its content; nothing where it
/// has no content identifier.
pub open spec fn foreign_track(keys: NameKeys, wire: PlaybackTrackModel) -> Option<TrackModel> {
    match wire.fed {
        Some(fed) => if is_content_id(ascii_lower(fed.content_id)) {
            Some(published(keys, wire, fed, ascii_lower(fed.content_id)))
        } else {
            None
        },
        None => match wire.content_id {
            Some(id) => if is_content_id(ascii_lower(id)) {
                Some(placeholder(keys, wire, ascii_lower(id)))
            } else {
                None
            },
            None => None,
        },
    }
}

pub fn foreign_playback_track<F: Fn(&str) -> String>(wire: &PlaybackTrack, names: &F) -> (r: Option<
    Track,
>)
    requires
        is_name_fn(names),
    ensures
        opt_view(r) == foreign_track(keys_by(names), wire@),
{
    let Some(fed) = &wire.fed else {
        let Some(id) = &wire.content_id else {
            return None;
        };
        return match ContentId::parse(id.as_str()) {
            Ok(content_id) => Some(portable_playback_placeholder(wire, content_id, names)),
            Err(_) => None,
        };
    };
    let content_id = match ContentId::parse(fed.content_id.as_str()) {
        Ok(content_id) => content_id,
        Err(_) => return None,
    };
    let title = match &fed.release_title {
        Some(title) => title.clone(),
        None => String::new(),
    };
    let mut track = portable_playback_placeholder(wire, content_id.clone(), names);
    track.key = TrackKey::federation(
        fed.owner.clone(),
        fed.item_id.clone(),
        Some(content_id.clone()),
    );
    track.artist = join(&wire.artist_names, ", ");
    track.artists = refs_by_name(fed.owner.as_str(), &wire.artist_names, names);
    track.featured_artists = refs_by_name(fed.owner.as_str(), &wire.featured_artist_names, names);
    track.release_id = ReleaseKey::Federation {
        peer_id: fed.owner.clone(),
        id: name_id_of(title.as_str(), names),
    };
    track.audio_source = AudioSource::Federation { peer_id: fed.owner.clone(), content_id };
    Some(track)
}

/// Where a player is by now: a playing one moved on since it spoke. A position
/// too large to count stays at the largest.
pub open spec fn extrapolated(state: PlaybackStateWireModel, elapsed_nanos: u64) -> u64 {
    let position = state.position_nanos + if state.playing && !state.paused {
        elapsed_nanos as int
    } else {
        0
    };
    if position < 0 {
        0
    } else if position > u64::MAX {
        u64::MAX
    } else {
        position as u64
    }
}

pub fn extrapolated_control_position(state: &PlaybackStateWire, elapsed_nanos: u64) -> (r: u64)
    ensures
        r == extrapolated(state@, elapsed_nanos),
{
    let moved: u64 = if state.playing && !state.paused {
        elapsed_nanos
    } else {
        0
    };
    let position: i128 = state.position_nanos as i128 + moved as i128;
    if position < 0 {
        0
    } else if position > 0xffff_ffff_ffff_ffff {
        u64::MAX
    } else {
        position as u64
    }
}

/// Whether what another device broadcasts is to be followed: it calls itself
/// active, and it is the one controlled, or nothing plays here.
pub open spec fn has_authority(
    role: DevicePlaybackRole,
    active_device_id: Seq<char>,
    local_status: PlaybackStatus,
    local_queue_empty: bool,
    device_id: Seq<char>,
    active: bool,
) -> bool {
    active && match role {
        DevicePlaybackRole::Control => device_id == active_device_id,
        DevicePlaybackRole::Active => local_status == PlaybackStatus::Stopped && local_queue_empty,
    }
}

pub fn remote_snapshot_has_authority(
    role: DevicePlaybackRole,
    active_device_id: &String,
    local_status: PlaybackStatus,
    local_queue_empty: bool,
    snapshot: &DevicePlayback,
) -> (r: bool)
    ensures
        r == has_authority(
            role,
            active_device_id@,
            local_status,
            local_queue_empty,
            snapshot@.device_id,
            snapshot@.active,
        ),
{
    if !snapshot.active {
        return false;
    }
    match role {
        DevicePlaybackRole::Control => snapshot.device_id == *active_device_id,
        DevicePlaybackRole::Active => local_status == PlaybackStatus::Stopped && local_queue_empty,
    }
}

/// The content identifier of a track, its own or else its publication's.
pub open spec fn wire_content(track: PlaybackTrackModel) -> Option<Seq<char>> {
    let own = match track.content_id {
        Some(id) => content_key(id),
        None => None,
    };
    match own {
        Some(id) => Some(id),
        None => match track.fed {
            Some(fed) => content_key(fed.content_id),
            None => None,
        },
    }
}

/// The keys of the names, in order.
pub open spec fn name_keys(keys: NameKeys, names: Seq<Seq<char>>) -> Seq<Seq<char>> {
    Seq::new(names.len(), |i: int| keys(names[i]))
}

/// Whether two devices mean the same track: by content where both know it, else
/// by everything that describes it.
pub open spec fn tracks_equivalent(
    keys: NameKeys,
    a: PlaybackTrackModel,
    b: PlaybackTrackModel,
) -> bool {
    if wire_content(a) is Some && wire_content(b) is Some {
        wire_content(a) == wire_content(b)
    } else {
        &&& keys(a.title) == keys(b.title)
        &&& keys(a.release_title) == keys(b.release_title)
        &&& a.track_number == b.track_number
        &&& a.disc_number == b.disc_number
        &&& name_keys(keys, a.artist_names) == name_keys(keys, b.artist_names)
    }
}

fn content_of(track: &PlaybackTrack) -> (r: Option<ContentId>)
    ensures
        opt_view(r) == wire_content(track@),
{
    if let Some(id) = &track.content_id {
        if let Some(id) = normalize_content_id(id.as_str()) {
            return Some(id);
        }
    }
    match &track.fed {
        Some(fed) => normalize_content_id(fed.content_id.as_str()),
        None => None,
    }
}

pub fn normalized_artist_names<F: Fn(&str) -> String>(artists: &Vec<String>, names: &F) -> (r: Vec<
    String,
>)
    requires
        is_name_fn(names),
    ensures
        views(r@) == name_keys(keys_by(names), views(artists@)),
{
    let mut r: Vec<String> = Vec::new();
    let mut i: usize = 0;
    while i < artists.len()
        invariant
            is_name_fn(names),
            i <= artists.len(),
            views(r@) == name_keys(keys_by(names), views(artists@)).take(i as int),
        decreases artists.len() - i,
    {
        r.push(key_of(names, artists[i].as_str()));
        i += 1;
        proof {
            assert(views(r@) =~= name_keys(keys_by(names), views(artists@)).take(i as int));
        }
    }
    proof {
        assert(views(r@) =~= name_keys(keys_by(names), views(artists@)));
    }
    r
}

fn same_names(a: &Vec<String>, b: &Vec<String>) -> (r: bool)
    ensures
        r == (views(a@) == views(b@)),
{
    if a.len() != b.len() {
        assert(views(a@).len() != views(b@).len());
        return false;
    }
    let mut i: usize = 0;
    while i < a.len()
        invariant
            i <= a.len() == b.len(),
            forall|j: int| 0 <= j < i ==> #[trigger] views(a@)[j] == views(b@)[j],
        decreases a.len() - i,
    {
        if a[i] != b[i] {
            assert(views(a@)[i as int] != views(b@)[i as int]);
            return false;
        }
        i += 1;
    }
    proof {
        assert(views(a@) =~= views(b@));
    }
    true
}

pub fn playback_tracks_equivalent<F: Fn(&str) -> String>(
    left: &PlaybackTrack,
    right: &PlaybackTrack,
    names: &F,
) -> (r: bool)
    requires
        is_name_fn(names),
    ensures
        r == tracks_equivalent(keys_by(names), left@, right@),
{
    match (content_of(left), content_of(right)) {
        (Some(left), Some(right)) => left == right,
        _ => key_of(names, left.title.as_str()) == key_of(names, right.title.as_str()) && key_of(
            names,
            left.release_title.as_str(),
        ) == key_of(names, right.release_title.as_str()) && left.track_number == right.track_number
            && left.disc_number == right.disc_number && same_names(
            &normalized_artist_names(&left.artist_names, names),
            &normalized_artist_names(&right.artist_names, names),
        ),
    }
}

/// How far a position may be off and still count as reached.
pub const POSITION_TOLERANCE_NANOS: i64 = 3_000_000_000;

/// Whether the queues hold the same tracks in the same order.
pub open spec fn same_queue(
    keys: NameKeys,
    a: Seq<PlaybackTrackModel>,
    b: Seq<PlaybackTrackModel>,
) -> bool {
    a.len() == b.len() && forall|i: int|
        0 <= i < a.len() ==> tracks_equivalent(keys, #[trigger] a[i], b[i])
}

/// Whether a device that reports `actual` has carried out the command to be in
/// the state `expected`, given `elapsed_nanos` ago.
pub open spec fn acknowledges(
    keys: NameKeys,
    expected: PlaybackStateWireModel,
    actual: PlaybackStateWireModel,
    seek: bool,
    elapsed_nanos: u64,
) -> bool {
    &&& same_queue(keys, expected.queue, actual.queue)
    &&& expected.queue_pos == actual.queue_pos
    &&& expected.playing == actual.playing
    &&& expected.paused == actual.paused
    &&& expected.volume == actual.volume
    &&& expected.shuffle == actual.shuffle
    &&& expected.repeat == actual.repeat
    &&& seek ==> -POSITION_TOLERANCE_NANOS <= extrapolated(expected, elapsed_nanos)
        - actual.position_nanos <= POSITION_TOLERANCE_NANOS
}

pub fn playback_state_acknowledges_command<F: Fn(&str) -> String>(
    expected: &PlaybackStateWire,
    actual: &PlaybackStateWire,
    seek: bool,
    elapsed_nanos: u64,
    names: &F,
) -> (r: bool)
    requires
        is_name_fn(names),
    ensures
        r == acknowledges(keys_by(names), expected@, actual@, seek, elapsed_nanos),
{
    let ghost keys = keys_by(names);
    if expected.queue.len() != actual.queue.len() {
        assert(expected@.queue.len() != actual@.queue.len());
        return false;
    }
    let mut i: usize = 0;
    while i < expected.queue.len()
        invariant
            is_name_fn(names),
            keys == keys_by(names),
            i <= expected.queue.len() == actual.queue.len(),
            forall|j: int|
                0 <= j < i ==> tracks_equivalent(
                    keys,
                    #[trigger] expected@.queue[j],
                    actual@.queue[j],
                ),
        decreases expected.queue.len() - i,
    {
        if !playback_tracks_equivalent(&expected.queue[i], &actual.queue[i], names) {
            assert(!tracks_equivalent(
                keys,
                expected@.queue[i as int],
                actual@.queue[i as int],
            ));
            return false;
        }
        i += 1;
    }
    let same_transport = expected.queue_pos == actual.queue_pos && expected.playing
        == actual.playing && expected.paused == actual.paused && expected.volume == actual.volume
        && expected.shuffle == actual.shuffle && expected.repeat == actual.repeat;
    if !same_transport {
        return false;
    }
    if !seek {
        return true;
    }
    let position: i128 = extrapolated_control_position(expected, elapsed_nanos) as i128;
    let off: i128 = position - actual.position_nanos as i128;
    -3_000_000_000 <= off && off <= 3_000_000_000
}

/// What a track's peer publishes of it, as far as the track tells: nothing
/// where it names no peer or no content.
pub open spec fn synced_fed(track: TrackModel) -> Option<SyncedFedTrackModel> {
    match (track.key.federation_identity, track.key.content_id) {
        (Some((owner, item_id)), Some(content_id)) => Some(
            SyncedFedTrackModel {
                item_id,
                owner,
                title: track.title,
                artist_names: artist_names(track.artists),
                featured_artist_names: artist_names(track.featured_artists),
                year: None,
                duration_seconds: if track.duration_nanos > 0 {
                    Some((track.duration_nanos / 1_000_000_000) as i64)
                } else {
                    None
                },
                content_id,
                release_title: if track.release.len() > 0 {
                    Some(track.release)
                } else {
                    None
                },
                track_number: narrow_i32(track.track_number),
                disc_number: narrow_i32(track.disc_number),
            },
        ),
        _ => None,
    }
}

pub fn track_to_synced_fed(track: &Track) -> (r: Option<SyncedFedTrack>)
    ensures
        opt_view(r) == synced_fed(track@),
{
    let Some((owner, item_id)) = track.key.federation_id() else {
        return None;
    };
    let Some(content_id) = track.key.content_id() else {
        return None;
    };
    Some(
        SyncedFedTrack {
            item_id: item_id.to_owned(),
            owner: owner.to_owned(),
            title: track.title.clone(),
            artist_names: names_of(&track.artists),
            featured_artist_names: names_of(&track.featured_artists),
            year: None,
            duration_seconds: if track.duration_nanos > 0 {
                Some((track.duration_nanos / 1_000_000_000) as i64)
            } else {
                None
            },
            content_id: content_id.as_str().to_owned(),
            release_title: if track.release.as_str().is_empty() {
                None
            } else {
                Some(track.release.clone())
            },
            track_number: to_i32(track.track_number),
            disc_number: to_i32(track.disc_number),
        },
    )
}

/// The track as other devices are told of it.
pub open spec fn playback_track(track: TrackModel) -> PlaybackTrackModel {
    PlaybackTrackModel {
        id: match track.key.local_id {
            Some(id) => id.0,
            None => (-1) as i64,
        },
        title: track.title,
        track_number: narrow_i32(track.track_number),
        disc_number: narrow_i32(track.disc_number),
        duration_nanos: track.duration_nanos,
        artist_names: artist_names(track.artists),
        featured_artist_names: artist_names(track.featured_artists),
        release_id: match track.release_id {
            ReleaseKeyModel::Local(id) => id.0,
            ReleaseKeyModel::Federation { .. } => (-1) as i64,
        },
        release_title: track.release,
        release_year: None,
        file_path: Seq::empty(),
        content_id: track.key.content_id,
        audio_format: track.audio_format,
        audio_bitrate: narrow_i32(track.audio_bitrate_kbps),
        audio_sample_rate: narrow_i32(track.audio_sample_rate_hz),
        audio_bit_depth: narrow_i32(track.audio_bit_depth),
        file_size_bytes: narrow_i64(track.file_size_bytes),
        play_count: 0,
        fed: synced_fed(track),
    }
}

pub fn track_to_playback_track(track: &Track) -> (r: PlaybackTrack)
    ensures
        r@ == playback_track(track@),
{
    PlaybackTrack {
        id: match track.key.local_id() {
            Some(id) => id.get(),
            None => -1,
        },
        title: track.title.clone(),
        track_number: to_i32(track.track_number),
        disc_number: to_i32(track.disc_number),
        duration_nanos: track.duration_nanos,
        artist_names: names_of(&track.artists),
        featured_artist_names: names_of(&track.featured_artists),
        release_id: match &track.release_id {
            ReleaseKey::Local(id) => id.get(),
            ReleaseKey::Federation { .. } => -1,
        },
        release_title: track.release.clone(),
        release_year: None,
        file_path: String::new(),
        content_id: match track.key.content_id() {
            Some(id) => Some(id.as_str().to_owned()),
            None => None,
        },
        audio_format: track.audio_format.clone(),
        audio_bitrate: to_i32(track.audio_bitrate_kbps),
        audio_sample_rate: to_i32(track.audio_sample_rate_hz),
        audio_bit_depth: to_i32(track.audio_bit_depth),
        file_size_bytes: to_i64(track.file_size_bytes),
        play_count: 0,
        fed: track_to_synced_fed(track),
    }
}

/// Every track counts as the same as itself.
pub proof fn a_track_is_equivalent_to_itself(keys: NameKeys, track: PlaybackTrackModel)
    ensures
        tracks_equivalent(keys, track, track),
{
}

/// A device that reports exactly the state it was told to take has carried out
/// the command, if it can be there yet: always where the command asks for no
/// position, and where it does, while playback has not moved on too far.
pub proof fn the_expected_state_acknowledges(
    keys: NameKeys,
    state: PlaybackStateWireModel,
    seek: bool,
    elapsed_nanos: u64,
)
    requires
        state.position_nanos >= 0,
        elapsed_nanos <= POSITION_TOLERANCE_NANOS,
    ensures
        acknowledges(keys, state, state, seek, elapsed_nanos),
{
}

/// A track with a content identifier that is told to a device which does not
/// know it can be played there, and its key matches there and here.
pub proof fn tracks_survive_the_wire(keys: NameKeys, track: TrackModel)
    requires
        track.key.content_id matches Some(id) && is_content_id(id),
    ensures
        foreign_track(keys, playback_track(track)) matches Some(copy) && copy.key.matches(
            track.key,
        ) && copy.title == track.title && copy.release == track.release && copy.duration_nanos
            == track.duration_nanos,
{
    crate::catalog::content_ids_are_normalized(track.key.content_id->0);
}

} // verus!
