//! What the desktop is told of playback, and what it asks for.
use crate::api::{BackendCommand, PlaybackStatus};
use crate::text::same_str;
use crate::views::opt_view;
use vstd::prelude::*;

verus! {

/// The position is told again after so long.
pub const POSITION_INTERVAL_NANOS: u64 = 2_000_000_000;

/// What the keys on the keyboard and the desktop ask of the player.
#[derive(Debug, Clone, Copy, PartialEq, Eq, Structural)]
pub enum MediaCommand {
    Toggle,
    Play,
    Pause,
    Next,
    Previous,
    Stop,
}

pub fn media_command(command: MediaCommand) -> (r: BackendCommand)
    ensures
        r == (match command {
            MediaCommand::Toggle => BackendCommand::TogglePlayback,
            MediaCommand::Play => BackendCommand::Play,
            MediaCommand::Pause => BackendCommand::Pause,
            MediaCommand::Next => BackendCommand::Next,
            MediaCommand::Previous => BackendCommand::Previous,
            MediaCommand::Stop => BackendCommand::Stop,
        }),
{
    match command {
        MediaCommand::Toggle => BackendCommand::TogglePlayback,
        MediaCommand::Play => BackendCommand::Play,
        MediaCommand::Pause => BackendCommand::Pause,
        MediaCommand::Next => BackendCommand::Next,
        MediaCommand::Previous => BackendCommand::Previous,
        MediaCommand::Stop => BackendCommand::Stop,
    }
}

/// What the desktop shows of a track.
#[derive(Debug, PartialEq)]
pub struct MediaMetadata {
    pub title: String,
    pub artist: String,
    pub album: String,
    pub duration_ms: u64,
}

pub struct MediaMetadataModel {
    pub title: Seq<char>,
    pub artist: Seq<char>,
    pub album: Seq<char>,
    pub duration_ms: u64,
}

impl View for MediaMetadata {
    type V = MediaMetadataModel;

    open spec fn view(&self) -> MediaMetadataModel {
        MediaMetadataModel {
            title: self.title@,
            artist: self.artist@,
            album: self.album@,
            duration_ms: self.duration_ms,
        }
    }
}

impl MediaMetadata {
    /// The length of the track, where it is known.
    pub fn duration(&self) -> (r: Option<u64>)
        ensures
            r == (if self@.duration_ms > 0 {
                Some(self@.duration_ms)
            } else {
                None
            }),
    {
        if self.duration_ms > 0 {
            Some(self.duration_ms)
        } else {
            None
        }
    }
}

/// What the desktop shows of the player.
#[derive(Debug, Clone, Copy, PartialEq, Eq, Structural)]
pub enum MediaPlayback {
    Stopped,
    Paused { position_ms: u64 },
    Playing { position_ms: u64 },
}

/// What the desktop was last told.
#[derive(Debug, PartialEq)]
pub struct MediaState {
    metadata: Option<MediaMetadata>,
    playback: Option<(bool, bool)>,
    told_at_nanos: Option<u64>,
}

pub struct MediaStateModel {
    pub metadata: Option<MediaMetadataModel>,
    pub playback: Option<(bool, bool)>,
    pub told_at_nanos: Option<u64>,
}

impl View for MediaState {
    type V = MediaStateModel;

    closed spec fn view(&self) -> MediaStateModel {
        MediaStateModel {
            metadata: opt_view(self.metadata),
            playback: self.playback,
            told_at_nanos: self.told_at_nanos,
        }
    }
}

/// Whether the desktop is told of the player again: when something changed, and
/// else only after a while.
pub open spec fn is_due(state: MediaStateModel, playback: (bool, bool), now_nanos: u64) -> bool {
    state.playback != Some(playback) || match state.told_at_nanos {
        Some(told) => now_nanos - told >= POSITION_INTERVAL_NANOS,
        None => true,
    }
}

pub open spec fn shown_playback(playing: bool, paused: bool, position_nanos: u64) -> MediaPlayback {
    if !playing {
        MediaPlayback::Stopped
    } else if paused {
        MediaPlayback::Paused { position_ms: position_nanos / 1_000_000 }
    } else {
        MediaPlayback::Playing { position_ms: position_nanos / 1_000_000 }
    }
}

impl MediaState {
    pub fn new() -> (r: Self)
        ensures
            r@ == (MediaStateModel { metadata: None, playback: None, told_at_nanos: None }),
    {
        MediaState { metadata: None, playback: None, told_at_nanos: None }
    }

    /// Takes note of the current track. Says whether the desktop is to be told.
    pub fn update_metadata(&mut self, title: &str, artist: &str, album: &str, duration_nanos: u64) -> (r:
        bool)
        ensures
            ({
                let next = MediaMetadataModel {
                    title: title@,
                    artist: artist@,
                    album: album@,
                    duration_ms: duration_nanos / 1_000_000,
                };
                &&& r == (old(self)@.metadata != Some(next))
                &&& final(self)@ == (MediaStateModel { metadata: Some(next), ..old(self)@ })
            }),
    {
        let duration_ms: u64 = duration_nanos / 1_000_000;
        if let Some(told) = &self.metadata {
            if same_str(told.title.as_str(), title) && same_str(told.artist.as_str(), artist)
                && same_str(told.album.as_str(), album) && told.duration_ms == duration_ms {
                return false;
            }
        }
        self.metadata = Some(
            MediaMetadata {
                title: title.to_owned(),
                artist: artist.to_owned(),
                album: album.to_owned(),
                duration_ms,
            },
        );
        true
    }

    /// Takes note of the player. Gives what the desktop is to be told, if it is.
    pub fn update_playback(
        &mut self,
        playing: bool,
        paused: bool,
        position_nanos: u64,
        now_nanos: u64,
    ) -> (r: Option<MediaPlayback>)
        ensures
            if is_due(old(self)@, (playing, paused), now_nanos) {
                &&& r == Some(shown_playback(playing, paused, position_nanos))
                &&& final(self)@ == (MediaStateModel {
                    playback: Some((playing, paused)),
                    told_at_nanos: Some(now_nanos),
                    ..old(self)@
                })
            } else {
                &&& r is None
                &&& final(self)@ == old(self)@
            },
    {
        let unchanged = match self.playback {
            Some((was_playing, was_paused)) => was_playing == playing && was_paused == paused,
            None => false,
        };
        let lately = match self.told_at_nanos {
            Some(told) => now_nanos < told || now_nanos - told < POSITION_INTERVAL_NANOS,
            None => false,
        };
        if unchanged && lately {
            return None;
        }
        self.playback = Some((playing, paused));
        self.told_at_nanos = Some(now_nanos);
        Some(
            if !playing {
                MediaPlayback::Stopped
            } else if paused {
                MediaPlayback::Paused { position_ms: position_nanos / 1_000_000 }
            } else {
                MediaPlayback::Playing { position_ms: position_nanos / 1_000_000 }
            },
        )
    }
}

/// What the desktop is told of a status: whether a track is on, and whether it
/// waits.
pub fn media_flags(status: PlaybackStatus) -> (r: (bool, bool))
    ensures
        r == (status != PlaybackStatus::Stopped, status == PlaybackStatus::Paused),
{
    (status != PlaybackStatus::Stopped, status == PlaybackStatus::Paused)
}

} // verus!
