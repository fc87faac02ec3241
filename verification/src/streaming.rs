//! Receiving audio and catalogs from peers: what is asked, what is refused, and
//! when a track that is still arriving can start to play.
use crate::federation::CatalogArtist;
use crate::text::same_str;
use crate::views::opt_view;
use vstd::prelude::*;

verus! {

broadcast use crate::views::group_views;

/// The version of the protocol by which tracks are sent.
pub const AUDIO_PROTOCOL_VERSION: u16 = 1;

/// A track starts to play once so many bytes are there.
pub const STREAM_BUFFER: u64 = 2_097_152;

/// The longest header line that a peer may send.
pub const MAX_HEADER_BYTES: usize = 65_536;

/// The longest catalog that a peer may send.
pub const MAX_CATALOG_BYTES: usize = 4_194_304;

/// The file ending for a kind of audio.
pub open spec fn audio_ending(mime: Seq<char>) -> Seq<char> {
    if mime == "audio/mpeg"@ {
        "mp3"@
    } else if mime == "audio/flac"@ || mime == "audio/x-flac"@ {
        "flac"@
    } else if mime == "audio/ogg"@ {
        "ogg"@
    } else if mime == "audio/opus"@ {
        "opus"@
    } else if mime == "audio/wav"@ || mime == "audio/x-wav"@ {
        "wav"@
    } else if mime == "audio/mp4"@ || mime == "audio/x-m4a"@ {
        "m4a"@
    } else if mime == "audio/aac"@ {
        "aac"@
    } else {
        "bin"@
    }
}

pub fn audio_extension(mime: &str) -> (r: &'static str)
    ensures
        r@ == audio_ending(mime@),
{
    if same_str(mime, "audio/mpeg") {
        "mp3"
    } else if same_str(mime, "audio/flac") || same_str(mime, "audio/x-flac") {
        "flac"
    } else if same_str(mime, "audio/ogg") {
        "ogg"
    } else if same_str(mime, "audio/opus") {
        "opus"
    } else if same_str(mime, "audio/wav") || same_str(mime, "audio/x-wav") {
        "wav"
    } else if same_str(mime, "audio/mp4") || same_str(mime, "audio/x-m4a") {
        "m4a"
    } else if same_str(mime, "audio/aac") {
        "aac"
    } else {
        "bin"
    }
}

/// The name of the file that a track ends up in.
pub fn audio_file_name(stem: &str, mime: &str) -> (r: String)
    ensures
        r@ == stem@ + "."@ + audio_ending(mime@),
{
    let mut r = stem.to_owned();
    r.push_str(".");
    r.push_str(audio_extension(mime));
    r
}

/// The name of the file that a track is in while it arrives.
pub fn partial_file_name(stem: &str, mime: &str) -> (r: String)
    ensures
        r@ == "."@ + (stem@ + "."@ + audio_ending(mime@)) + ".part"@,
{
    let mut r = ".".to_owned();
    r.push_str(audio_file_name(stem, mime).as_str());
    r.push_str(".part");
    r
}

/// What a peer says before it sends audio.
#[derive(Debug, PartialEq)]
pub struct AudioHeader {
    pub ok: bool,
    pub error: Option<String>,
    pub mime_type: String,
    pub total_size: u64,
    pub cover_size: u64,
    pub artist_image_size: u64,
}

pub struct AudioHeaderModel {
    pub ok: bool,
    pub error: Option<Seq<char>>,
    pub mime_type: Seq<char>,
    pub total_size: u64,
    pub cover_size: u64,
    pub artist_image_size: u64,
}

impl View for AudioHeader {
    type V = AudioHeaderModel;

    open spec fn view(&self) -> AudioHeaderModel {
        AudioHeaderModel {
            ok: self.ok,
            error: opt_view(self.error),
            mime_type: self.mime_type@,
            total_size: self.total_size,
            cover_size: self.cover_size,
            artist_image_size: self.artist_image_size,
        }
    }
}

/// Why audio with that header is not taken: the peer refuses, or it would send
/// pictures that nobody asked for.
pub open spec fn audio_refusal(header: AudioHeaderModel) -> Option<Seq<char>> {
    if !header.ok {
        match header.error {
            Some(error) => Some(error),
            None => Some("peer refused audio"@),
        }
    } else if header.cover_size != 0 || header.artist_image_size != 0 {
        Some("unexpected image data in audio stream"@)
    } else {
        None
    }
}

/// Takes the header, and gets ready to receive what it announces.
pub fn accept_audio(header: &AudioHeader) -> (r: Result<AudioProgress, String>)
    ensures
        r is Ok <==> audio_refusal(header@) is None,
        r matches Ok(progress) ==> progress@ == announced(header.total_size),
        r matches Err(error) ==> Some(error@) == audio_refusal(header@),
{
    if !header.ok {
        return Err(
            match &header.error {
                Some(error) => error.clone(),
                None => "peer refused audio".to_owned(),
            },
        );
    }
    if header.cover_size != 0 || header.artist_image_size != 0 {
        return Err("unexpected image data in audio stream".to_owned());
    }
    Ok(AudioProgress { total_size: header.total_size, received: 0, started: false })
}

/// A track that is arriving.
#[derive(Debug, PartialEq, Eq)]
pub struct AudioProgress {
    total_size: u64,
    received: u64,
    started: bool,
}

pub struct AudioProgressModel {
    pub total_size: u64,
    pub received: u64,
    pub started: bool,
}

impl View for AudioProgress {
    type V = AudioProgressModel;

    closed spec fn view(&self) -> AudioProgressModel {
        AudioProgressModel {
            total_size: self.total_size,
            received: self.received,
            started: self.started,
        }
    }
}

/// Nothing has arrived yet.
pub open spec fn announced(total_size: u64) -> AudioProgressModel {
    AudioProgressModel { total_size, received: 0, started: false }
}

/// How many bytes it takes to start.
pub open spec fn start_threshold(total_size: u64) -> u64 {
    if total_size < 1 {
        1
    } else if total_size > STREAM_BUFFER {
        STREAM_BUFFER
    } else {
        total_size
    }
}

impl AudioProgressModel {
    /// More bytes are there; the track starts once there are enough.
    pub open spec fn with_bytes(self, n: u64) -> Self {
        AudioProgressModel {
            received: (self.received + n) as u64,
            started: self.started || self.received + n >= start_threshold(self.total_size),
            ..self
        }
    }

    /// Nothing more comes; what is there starts now at the latest.
    pub open spec fn at_end(self) -> Self {
        AudioProgressModel { started: self.started || self.received > 0, ..self }
    }

    /// All that was announced is there.
    pub open spec fn is_complete(self) -> bool {
        self.total_size == 0 || self.received == self.total_size
    }
}

impl AudioProgress {
    pub fn received(&self) -> (r: u64)
        ensures
            r == self@.received,
    {
        self.received
    }

    /// Takes note of more bytes, and says whether the track starts with them.
    pub fn bytes_received(&mut self, n: u64) -> (r: bool)
        requires
            old(self)@.received + n <= u64::MAX,
        ensures
            final(self)@ == old(self)@.with_bytes(n),
            r == (final(self)@.started && !old(self)@.started),
    {
        self.received = self.received + n;
        let threshold: u64 = if self.total_size < 1 {
            1
        } else if self.total_size > STREAM_BUFFER {
            STREAM_BUFFER
        } else {
            self.total_size
        };
        if !self.started && self.received >= threshold {
            self.started = true;
            true
        } else {
            false
        }
    }

    /// Takes note that nothing more comes, and says whether the track starts
    /// only now.
    pub fn stream_ended(&mut self) -> (r: bool)
        ensures
            final(self)@ == old(self)@.at_end(),
            r == (final(self)@.started && !old(self)@.started),
    {
        if !self.started && self.received > 0 {
            self.started = true;
            true
        } else {
            false
        }
    }

    /// Whether all that was announced is there.
    pub fn is_complete(&self) -> (r: bool)
        ensures
            r == self@.is_complete(),
    {
        self.total_size == 0 || self.received == self.total_size
    }
}

/// A track as it is after chunks of the given sizes have arrived.
pub open spec fn after_chunks(progress: AudioProgressModel, sizes: Seq<u64>) -> AudioProgressModel
    decreases sizes.len(),
{
    if sizes.len() == 0 {
        progress
    } else {
        after_chunks(progress, sizes.drop_last()).with_bytes(sizes.last())
    }
}

pub open spec fn total(sizes: Seq<u64>) -> int
    decreases sizes.len(),
{
    if sizes.len() == 0 {
        0
    } else {
        total(sizes.drop_last()) + sizes.last()
    }
}

/// In whatever chunks a track arrives, once all of it is there it is complete,
/// and it has started to play by the time the stream ends.
pub proof fn a_whole_track_plays(total_size: u64, sizes: Seq<u64>)
    requires
        total_size > 0,
        total(sizes) == total_size,
    ensures
        after_chunks(announced(total_size), sizes).is_complete(),
        after_chunks(announced(total_size), sizes).at_end().started,
{
    lemma_received(total_size, sizes);
}

proof fn lemma_received(total_size: u64, sizes: Seq<u64>)
    requires
        total(sizes) <= u64::MAX,
    ensures
        after_chunks(announced(total_size), sizes).received == total(sizes),
        after_chunks(announced(total_size), sizes).total_size == total_size,
        total(sizes) >= 0,
    decreases sizes.len(),
{
    if sizes.len() > 0 {
        lemma_total_is_not_negative(sizes.drop_last());
        lemma_received(total_size, sizes.drop_last());
    }
}

proof fn lemma_total_is_not_negative(sizes: Seq<u64>)
    ensures
        total(sizes) >= 0,
    decreases sizes.len(),
{
    if sizes.len() > 0 {
        lemma_total_is_not_negative(sizes.drop_last());
    }
}

/// What a further byte does to a header line.
#[derive(Debug, Clone, Copy, PartialEq, Eq, Structural)]
pub enum HeaderStep {
    More,
    Complete,
    TooLarge,
}

/// Takes one more byte of a header line, which ends with a line feed.
pub fn push_header_byte(line: &mut Vec<u8>, byte: u8) -> (r: HeaderStep)
    ensures
        r == (if byte == 10 {
            HeaderStep::Complete
        } else if old(line).len() >= MAX_HEADER_BYTES {
            HeaderStep::TooLarge
        } else {
            HeaderStep::More
        }),
        final(line)@ == (if r == HeaderStep::More {
            old(line)@.push(byte)
        } else {
            old(line)@
        }),
{
    if byte == 10 {
        HeaderStep::Complete
    } else if line.len() >= MAX_HEADER_BYTES {
        HeaderStep::TooLarge
    } else {
        line.push(byte);
        HeaderStep::More
    }
}

/// Whether a catalog of so many bytes is taken.
pub fn catalog_fits(len: usize) -> (r: bool)
    ensures
        r == (len <= MAX_CATALOG_BYTES),
{
    len <= MAX_CATALOG_BYTES
}

/// Why an answer holds no catalog.
pub open spec fn catalog_refusal(ok: bool, error: Option<Seq<char>>, is_there: bool) -> Option<Seq<char>> {
    if !ok {
        match error {
            Some(error) => Some(error),
            None => Some("catalog rejected"@),
        }
    } else if !is_there {
        Some("empty artist catalog"@)
    } else {
        None
    }
}

/// Takes the catalog out of a peer's answer.
pub fn accept_catalog(ok: bool, error: Option<String>, artist: Option<CatalogArtist>) -> (r: Result<
    CatalogArtist,
    String,
>)
    ensures
        r is Ok <==> catalog_refusal(ok, opt_view(error), artist is Some) is None,
        r matches Ok(catalog) ==> Some(catalog@) == opt_view(artist),
        r matches Err(message) ==> Some(message@) == catalog_refusal(
            ok,
            opt_view(error),
            artist is Some,
        ),
{
    if !ok {
        return Err(
            match error {
                Some(error) => error,
                None => "catalog rejected".to_owned(),
            },
        );
    }
    match artist {
        Some(artist) => Ok(artist),
        None => Err("empty artist catalog".to_owned()),
    }
}

} // verus!
