//! The words and numbers that the window shows.
use crate::api::{
    FederationActivityModel, FederationActivitySnapshot, FederationOperation, SearchStats,
};
use crate::catalog::{artist_names, names_of, ArtistRef, ArtistRefModel, Track, TrackModel};
use crate::federation::{artist_line, credit_line};
use crate::sync_ops::{blank, is_blank};
use crate::text::{
    ascii_lower, chars_of, decimal, decimal_text, join, joined, same_str, text_of, to_ascii_lower,
    trim, trimmed, uppercase,
};
use crate::view_keys::{artist_key_text, format_artist_key, starts_with};
use crate::views::{opt_view, views};
use vstd::prelude::*;

verus! {

broadcast use crate::views::group_views;

/// An artist that can be followed, with what stands before the name.
#[derive(Debug, PartialEq)]
pub struct ArtistLinkView {
    pub key: String,
    pub name: String,
    pub prefix: String,
}

pub struct ArtistLinkViewModel {
    pub key: Seq<char>,
    pub name: Seq<char>,
    pub prefix: Seq<char>,
}

impl View for ArtistLinkView {
    type V = ArtistLinkViewModel;

    open spec fn view(&self) -> ArtistLinkViewModel {
        ArtistLinkViewModel {
            key: self.key@,
            name: self.name@,
            prefix: self.prefix@,
        }
    }
}

pub fn number_text(n: usize) -> (r: String)
    ensures
        r@ == decimal(n as nat),
{
    decimal_text(n as u64)
}

/// The number of a track in a list: its own where the list is a release, else
/// its place.
pub open spec fn number_label(track: TrackModel, index: usize, own_number: bool) -> Seq<char> {
    if own_number {
        match track.track_number {
            Some(n) => decimal(n as nat),
            None => "—"@,
        }
    } else {
        decimal((index + 1) as nat)
    }
}

pub fn track_number_label(track: &Track, index: usize, use_metadata_number: bool) -> (r: String)
    requires
        index < usize::MAX,
    ensures
        r@ == number_label(track@, index, use_metadata_number),
{
    if use_metadata_number {
        match track.track_number {
            Some(n) => decimal_text(n as u64),
            None => "—".to_owned(),
        }
    } else {
        number_text(index + 1)
    }
}

/// Everyone on a track in one line; where nobody is credited, what the track
/// says.
pub open spec fn artists_label(track: TrackModel) -> Seq<char> {
    let label = credit_line(artist_names(track.artists), artist_names(track.featured_artists));
    if label.len() == 0 {
        track.artist
    } else {
        label
    }
}

pub fn track_artist_label(track: &Track) -> (r: String)
    ensures
        r@ == artists_label(track@),
{
    let label = artist_line(&names_of(&track.artists), &names_of(&track.featured_artists));
    if label.as_str().is_empty() {
        track.artist.clone()
    } else {
        label
    }
}

pub open spec fn link(artist: ArtistRefModel, prefix: Seq<char>) -> ArtistLinkViewModel {
    ArtistLinkViewModel { key: artist_key_text(artist.key), name: artist.name, prefix }
}

/// Links to artists, with a comma before all but the first, which has `first`
/// before it.
pub open spec fn links(artists: Seq<ArtistRefModel>, first: Seq<char>) -> Seq<ArtistLinkViewModel> {
    Seq::new(
        artists.len(),
        |i: int|
            link(
                artists[i],
                if i == 0 {
                    first
                } else {
                    ", "@
                },
            ),
    )
}

/// Links to everyone on a track.
pub open spec fn artist_links(track: TrackModel) -> Seq<ArtistLinkViewModel> {
    links(track.artists, ""@) + links(track.featured_artists, " feat. "@)
}

fn link_to(artist: &ArtistRef, prefix: &str) -> (r: ArtistLinkView)
    ensures
        r@ == link(artist@, prefix@),
{
    ArtistLinkView {
        key: format_artist_key(&artist.key),
        name: artist.name.clone(),
        prefix: prefix.to_owned(),
    }
}

/// Links to artists, with commas between them.
pub fn links_to(artists: &Vec<ArtistRef>, first: &str) -> (r: Vec<ArtistLinkView>)
    ensures
        views(r@) == links(views(artists@), first@),
{
    let ghost all = links(views(artists@), first@);
    let mut r: Vec<ArtistLinkView> = Vec::new();
    let mut i: usize = 0;
    while i < artists.len()
        invariant
            i <= artists.len(),
            all == links(views(artists@), first@),
            views(r@) == all.take(i as int),
        decreases artists.len() - i,
    {
        r.push(
            link_to(
                &artists[i],
                if i == 0 {
                    first
                } else {
                    ", "
                },
            ),
        );
        i += 1;
        assert(views(r@) =~= all.take(i as int));
    }
    assert(views(r@) =~= all);
    r
}

pub fn track_artist_links(track: &Track) -> (r: Vec<ArtistLinkView>)
    ensures
        views(r@) == artist_links(track@),
{
    let mut r = links_to(&track.artists, "");
    let mut featured = links_to(&track.featured_artists, " feat. ");
    r.append(&mut featured);
    assert(views(r@) =~= artist_links(track@));
    r
}

pub open spec fn capped(n: int) -> int {
    if n > usize::MAX {
        usize::MAX as int
    } else {
        n
    }
}

/// How much room each name takes.
pub open spec fn name_widths(artists: Seq<ArtistRefModel>) -> Seq<int> {
    Seq::new(artists.len(), |i: int| capped(artists[i].name.len() as int + 2))
}

/// How much room the first `n` names take together.
pub open spec fn width_before(widths: Seq<int>, n: int) -> int
    decreases n,
{
    if n <= 0 {
        0
    } else {
        capped(width_before(widths, n - 1) + widths[n - 1])
    }
}

/// How unequal two lines are when the first `n` names stand in the first of
/// them.
pub open spec fn imbalance(widths: Seq<int>, n: int) -> int {
    let first = width_before(widths, n);
    let total = width_before(widths, widths.len() as int);
    let second = if total >= first {
        total - first
    } else {
        0
    };
    if first >= second {
        first - second
    } else {
        second - first
    }
}

/// The best number of names for the first line, among those up to `n`.
pub open spec fn best_break(widths: Seq<int>, n: int) -> int
    decreases n,
{
    if n <= 1 {
        1
    } else {
        let before = best_break(widths, n - 1);
        if imbalance(widths, n) < imbalance(widths, before) {
            n
        } else {
            before
        }
    }
}

/// After how many names the line of artists breaks, so that two lines come out
/// as equal as can be; nowhere where there are fewer than two names.
pub open spec fn line_break(track: TrackModel) -> int {
    let widths = name_widths(track.artists + track.featured_artists);
    if widths.len() < 2 {
        0
    } else {
        let n = best_break(widths, widths.len() - 1);
        if n > i32::MAX {
            i32::MAX as int
        } else {
            n
        }
    }
}

fn plus(a: usize, b: usize) -> (r: usize)
    ensures
        r == capped(a + b),
{
    if a > usize::MAX - b {
        usize::MAX
    } else {
        a + b
    }
}

fn widths_of(artists: &Vec<ArtistRef>) -> (r: Vec<usize>)
    ensures
        r@.len() == artists@.len(),
        forall|i: int| 0 <= i < r@.len() ==> #[trigger] r@[i] == name_widths(views(artists@))[i],
{
    let mut r: Vec<usize> = Vec::new();
    let mut i: usize = 0;
    while i < artists.len()
        invariant
            i <= artists.len(),
            r@.len() == i,
            forall|k: int| 0 <= k < i ==> #[trigger] r@[k] == name_widths(views(artists@))[k],
        decreases artists.len() - i,
    {
        r.push(plus(chars_of(artists[i].name.as_str()).len(), 2));
        i += 1;
    }
    r
}

pub fn track_artist_line_break(track: &Track) -> (r: i32)
    ensures
        r == line_break(track@),
{
    let ghost widths = name_widths(track@.artists + track@.featured_artists);
    let mut segments = widths_of(&track.artists);
    let mut featured = widths_of(&track.featured_artists);
    segments.append(&mut featured);
    proof {
        assert(segments@.len() == widths.len());
        assert forall|i: int| 0 <= i < widths.len() implies #[trigger] segments@[i] == widths[i] by {
            if i >= track@.artists.len() {
                assert(segments@[i] == name_widths(track@.featured_artists)[i
                    - track@.artists.len()]);
            } else {
                assert(segments@[i] == name_widths(track@.artists)[i]);
            }
        }
    }
    if segments.len() < 2 {
        return 0;
    }
    let mut total: usize = 0;
    let mut i: usize = 0;
    while i < segments.len()
        invariant
            i <= segments.len() == widths.len(),
            forall|k: int| 0 <= k < widths.len() ==> #[trigger] segments@[k] == widths[k],
            total == width_before(widths, i as int),
        decreases segments.len() - i,
    {
        total = plus(total, segments[i]);
        i += 1;
    }
    let mut prefix: usize = 0;
    let mut best_index: usize = 1;
    let mut best_delta: usize = usize::MAX;
    let mut i: usize = 0;
    let last = segments.len() - 1;
    while i < last
        invariant
            i <= last,
            last + 1 == segments.len() == widths.len(),
            forall|k: int| 0 <= k < widths.len() ==> #[trigger] segments@[k] == widths[k],
            total == width_before(widths, widths.len() as int),
            prefix == width_before(widths, i as int),
            best_index == best_break(widths, i as int),
            1 <= best_index <= last,
            i >= 1 ==> best_delta == imbalance(widths, best_index as int),
            i == 0 ==> best_delta == usize::MAX,
        decreases last - i,
    {
        prefix = plus(prefix, segments[i]);
        let rest: usize = if total >= prefix {
            total - prefix
        } else {
            0
        };
        let delta: usize = if prefix >= rest {
            prefix - rest
        } else {
            rest - prefix
        };
        proof {
            assert(delta == imbalance(widths, i + 1));
        }
        if i == 0 || delta < best_delta {
            best_delta = delta;
            best_index = i + 1;
        }
        i += 1;
    }
    if best_index > 2_147_483_647 {
        i32::MAX
    } else {
        best_index as i32
    }
}

/// No other break makes the two lines more equal, and no earlier one makes them
/// as equal.
pub proof fn the_line_breaks_in_the_middle(widths: Seq<int>, n: int, k: int)
    requires
        1 <= k <= n,
    ensures
        1 <= best_break(widths, n) <= n,
        imbalance(widths, best_break(widths, n)) <= imbalance(widths, k),
        k < best_break(widths, n) ==> imbalance(widths, best_break(widths, n)) < imbalance(widths, k),
    decreases n,
{
    if n > 1 {
        if k < n {
            the_line_breaks_in_the_middle(widths, n - 1, k);
        } else {
            the_line_breaks_in_the_middle(widths, n - 1, 1);
        }
    }
}

/// The format and bit rate of a track.
pub open spec fn metadata_label(track: TrackModel) -> Seq<char> {
    let format = match track.audio_format {
        Some(format) => if format.len() > 0 {
            seq![uppercase(format)]
        } else {
            Seq::empty()
        },
        None => Seq::empty(),
    };
    let bitrate = match track.audio_bitrate_kbps {
        Some(n) => seq![decimal(n as nat) + " kbps"@],
        None => Seq::empty(),
    };
    joined(format + bitrate, " · "@)
}

fn with_unit(n: u64, unit: &str) -> (r: String)
    ensures
        r@ == decimal(n as nat) + unit@,
{
    let mut r = decimal_text(n);
    r.push_str(unit);
    r
}

pub fn track_metadata_label(track: &Track) -> (r: String)
    ensures
        r@ == metadata_label(track@),
{
    let mut parts: Vec<String> = Vec::new();
    if let Some(format) = &track.audio_format {
        if !format.as_str().is_empty() {
            parts.push(format.as_str().to_uppercase());
        }
    }
    let ghost format = views(parts@);
    if let Some(n) = track.audio_bitrate_kbps {
        parts.push(with_unit(n as u64, " kbps"));
    }
    proof {
        let f = match track@.audio_format {
            Some(format) => if format.len() > 0 {
                seq![uppercase(format)]
            } else {
                Seq::empty()
            },
            None => Seq::empty(),
        };
        let b = match track@.audio_bitrate_kbps {
            Some(n) => seq![decimal(n as nat) + " kbps"@],
            None => Seq::empty(),
        };
        assert(format =~= f);
        assert(views(parts@) =~= f + b);
    }
    join(&parts, " · ")
}

pub open spec fn listed(part: Option<Seq<char>>) -> Seq<Seq<char>> {
    match part {
        Some(part) => seq![part],
        None => Seq::empty(),
    }
}

/// What the quality label says of the size of a file, in MiB with one decimal.
pub open spec fn size_label(size: u64) -> Seq<char> {
    decimal((size / 1_048_576) as nat) + "."@ + decimal(
        (size % 1_048_576 * 10 / 1_048_576) as nat,
    ) + " MiB"@
}

/// All that is known of the quality of a track. The sample rate comes as it is
/// shown.
pub open spec fn quality_label(track: TrackModel, rate: Option<Seq<char>>) -> Seq<char> {
    joined(
        listed(
            match track.audio_bitrate_kbps {
                Some(n) => Some(decimal(n as nat) + " kbps"@),
                None => None,
            },
        ) + listed(rate) + listed(
            match track.audio_bit_depth {
                Some(n) => Some(decimal(n as nat) + " bit"@),
                None => None,
            },
        ) + listed(
            match track.file_size_bytes {
                Some(size) => Some(size_label(size)),
                None => None,
            },
        ),
        " · "@,
    )
}

pub fn track_quality_label(track: &Track, rate: Option<String>) -> (r: String)
    ensures
        r@ == quality_label(track@, opt_view(rate)),
{
    let mut parts: Vec<String> = Vec::new();
    if let Some(n) = track.audio_bitrate_kbps {
        parts.push(with_unit(n as u64, " kbps"));
    }
    let ghost a = views(parts@);
    let ghost rate_view = opt_view(rate);
    if let Some(rate) = rate {
        parts.push(rate);
    }
    let ghost b = views(parts@);
    if let Some(n) = track.audio_bit_depth {
        parts.push(with_unit(n as u64, " bit"));
    }
    let ghost c = views(parts@);
    if let Some(size) = track.file_size_bytes {
        let mut label = decimal_text(size / 1_048_576);
        label.push_str(".");
        label.push_str(decimal_text(size % 1_048_576 * 10 / 1_048_576).as_str());
        label.push_str(" MiB");
        parts.push(label);
    }
    proof {
        assert(a =~= listed(
            match track@.audio_bitrate_kbps {
                Some(n) => Some(decimal(n as nat) + " kbps"@),
                None => None,
            },
        ));
        assert(b =~= a + listed(rate_view));
        assert(c =~= b + listed(
            match track@.audio_bit_depth {
                Some(n) => Some(decimal(n as nat) + " bit"@),
                None => None,
            },
        ));
        assert(views(parts@) =~= c + listed(
            match track@.file_size_bytes {
                Some(size) => Some(size_label(size)),
                None => None,
            },
        ));
    }
    join(&parts, " · ")
}

/// How long a search took.
pub open spec fn took(milliseconds: u64) -> Seq<char> {
    if milliseconds < 1_000 {
        decimal(milliseconds as nat) + " ms"@
    } else {
        decimal((milliseconds / 1_000) as nat) + "."@ + decimal(
            (milliseconds % 1_000 / 100) as nat,
        ) + " s"@
    }
}

pub fn search_duration_label(milliseconds: u64) -> (r: String)
    ensures
        r@ == took(milliseconds),
{
    if milliseconds < 1_000 {
        with_unit(milliseconds, " ms")
    } else {
        let mut r = decimal_text(milliseconds / 1_000);
        r.push_str(".");
        r.push_str(decimal_text(milliseconds % 1_000 / 100).as_str());
        r.push_str(" s");
        r
    }
}

/// The kind of a release as it is shown.
pub open spec fn type_label(release_type: Seq<char>) -> Seq<char> {
    let kind = trimmed(release_type);
    if kind.len() == 0 {
        "Release"@
    } else if ascii_lower(kind) == "ep"@ {
        "EP"@
    } else {
        uppercase(kind.take(1)) + kind.skip(1)
    }
}

pub fn release_type_label(release_type: &str) -> (r: String)
    ensures
        r@ == type_label(release_type@),
{
    let kind = trim(release_type);
    let chars = chars_of(kind.as_str());
    if chars.len() == 0 {
        return "Release".to_owned();
    }
    if same_str(to_ascii_lower(kind.as_str()).as_str(), "ep") {
        return "EP".to_owned();
    }
    let mut r = text_of(&chars, 0, 1).as_str().to_uppercase();
    let len = chars.len();
    r.push_str(text_of(&chars, 1, len).as_str());
    proof {
        assert(kind@.take(1) =~= kind@.subrange(0, 1));
        assert(kind@.skip(1) =~= kind@.subrange(1, len as int));
    }
    r
}

/// How many bytes a character takes in UTF-8.
pub open spec fn byte_width(c: char) -> int {
    if c as int <= 0x7f {
        1
    } else if c as int <= 0x7ff {
        2
    } else if c as int <= 0xffff {
        3
    } else {
        4
    }
}

pub open spec fn bytes_before(s: Seq<char>, n: int) -> int
    decreases n,
{
    if n <= 0 {
        0
    } else {
        bytes_before(s, n - 1) + byte_width(s[n - 1])
    }
}

/// The beginning of a text that takes twelve bytes, or else the whole text.
pub open spec fn short(s: Seq<char>) -> Seq<char> {
    if exists|n: int| 0 <= n <= s.len() && bytes_before(s, n) == 12 {
        s.take(choose|n: int| 0 <= n <= s.len() && bytes_before(s, n) == 12)
    } else {
        s
    }
}

proof fn lemma_bytes_grow(s: Seq<char>, a: int, b: int)
    requires
        0 <= a < b,
    ensures
        bytes_before(s, a) < bytes_before(s, b),
    decreases b,
{
    if a < b - 1 {
        lemma_bytes_grow(s, a, b - 1);
    }
}

fn shortened(value: &str) -> (r: String)
    ensures
        r@ == short(value@),
{
    let chars = chars_of(value);
    let ghost s = value@;
    let mut width: usize = 0;
    let mut i: usize = 0;
    while i < chars.len() && width < 12
        invariant
            chars@ == s,
            i <= chars.len(),
            width == bytes_before(s, i as int),
            width < 16,
            i > 0 ==> bytes_before(s, i - 1) < 12,
        decreases chars.len() - i,
    {
        let c = chars[i];
        let step: usize = if c <= '\u{7f}' {
            1
        } else if c <= '\u{7ff}' {
            2
        } else if c <= '\u{ffff}' {
            3
        } else {
            4
        };
        width = width + step;
        i += 1;
    }
    proof {
        assert forall|n: int| 0 <= n <= s.len() && bytes_before(s, n) == 12 implies n == i && width
            == 12 by {
            if n < i {
                lemma_bytes_grow(s, n, i as int);
                assert(bytes_before(s, i - 1) < 12);
                if n < i - 1 {
                    lemma_bytes_grow(s, n, i - 1);
                }
            } else if n > i {
                lemma_bytes_grow(s, i as int, n);
            }
        }
        if width == 12 {
            assert(bytes_before(s, i as int) == 12);
            assert(s.take(i as int) =~= s.subrange(0, i as int));
        }
    }
    if width == 12 {
        text_of(&chars, 0, i)
    } else {
        value.to_owned()
    }
}

/// The identifiers of the node, as far as they are known.
pub open spec fn node_ids(endpoint: Seq<char>, dht: Seq<char>) -> Seq<char> {
    if endpoint.len() > 0 && dht.len() > 0 {
        "ep "@ + short(endpoint) + " · dht "@ + short(dht)
    } else if endpoint.len() > 0 {
        "ep "@ + short(endpoint)
    } else if dht.len() > 0 {
        "dht "@ + short(dht)
    } else {
        "n/a"@
    }
}

pub fn federation_node_ids(endpoint_id: &str, dht_node_id: &str) -> (r: String)
    ensures
        r@ == node_ids(endpoint_id@, dht_node_id@),
{
    if !endpoint_id.is_empty() {
        let mut r = "ep ".to_owned();
        r.push_str(shortened(endpoint_id).as_str());
        if !dht_node_id.is_empty() {
            r.push_str(" · dht ");
            r.push_str(shortened(dht_node_id).as_str());
        }
        r
    } else if !dht_node_id.is_empty() {
        let mut r = "dht ".to_owned();
        r.push_str(shortened(dht_node_id).as_str());
        r
    } else {
        "n/a".to_owned()
    }
}

pub open spec fn operation_label(operation: FederationOperation) -> Seq<char> {
    match operation {
        FederationOperation::Idle => "Connecting to federation"@,
        FederationOperation::Search => "Searching federation"@,
        FederationOperation::Artist => "Loading artist"@,
        FederationOperation::Release => "Loading release"@,
    }
}

pub open spec fn stats_label(stats: SearchStats) -> Seq<char> {
    decimal(stats.tracks as nat) + " tracks · "@ + decimal(stats.artists as nat) + " artists · "@
        + decimal(stats.peers_queried as nat) + " peers · "@ + took(stats.duration_ms)
}

/// What the network is doing: whether it is busy, and in words.
pub open spec fn network_status(enabled: bool, activity: FederationActivityModel) -> (bool, Seq<char>) {
    if !enabled {
        (false, "Federation disabled"@)
    } else if activity.pending {
        (true, operation_label(activity.operation) + "…"@)
    } else {
        match activity.error {
            Some(error) => (false, "Network error · "@ + error),
            None => match activity.stats {
                Some(stats) => (false, stats_label(stats)),
                None => (false, "Federation ready"@),
            },
        }
    }
}

pub fn federation_status(enabled: bool, activity: &FederationActivitySnapshot) -> (r: (
    bool,
    String,
))
    ensures
        r.0 == network_status(enabled, activity@).0,
        r.1@ == network_status(enabled, activity@).1,
{
    if !enabled {
        return (false, "Federation disabled".to_owned());
    }
    if activity.pending {
        let mut r = (match activity.operation {
            FederationOperation::Idle => "Connecting to federation",
            FederationOperation::Search => "Searching federation",
            FederationOperation::Artist => "Loading artist",
            FederationOperation::Release => "Loading release",
        }).to_owned();
        r.push_str("…");
        return (true, r);
    }
    if let Some(error) = &activity.error {
        let mut r = "Network error · ".to_owned();
        r.push_str(error.as_str());
        return (false, r);
    }
    if let Some(stats) = &activity.stats {
        let mut r = number_text(stats.tracks);
        r.push_str(" tracks · ");
        r.push_str(number_text(stats.artists).as_str());
        r.push_str(" artists · ");
        r.push_str(number_text(stats.peers_queried).as_str());
        r.push_str(" peers · ");
        r.push_str(search_duration_label(stats.duration_ms).as_str());
        return (false, r);
    }
    (false, "Federation ready".to_owned())
}

/// Where a picture is on disk.
pub open spec fn picture_path(uri: Option<Seq<char>>) -> Option<Seq<char>> {
    match uri {
        None => None,
        Some(uri) => if is_blank(uri) {
            None
        } else if starts_with(uri, "file://"@) {
            Some(uri.skip("file://"@.len() as int))
        } else {
            Some(uri)
        },
    }
}

pub fn artwork_path(uri: &Option<String>) -> (r: Option<String>)
    ensures
        opt_view(r) == picture_path(opt_view(*uri)),
{
    match uri {
        None => None,
        Some(uri) => if blank(uri.as_str()) {
            None
        } else {
            let chars = chars_of(uri.as_str());
            let prefix = chars_of("file://");
            let len = chars.len();
            if crate::view_keys::has_prefix(&chars, &prefix) {
                proof {
                    assert(uri@.skip(prefix@.len() as int) =~= uri@.subrange(
                        prefix@.len() as int,
                        len as int,
                    ));
                }
                Some(text_of(&chars, prefix.len(), len))
            } else {
                Some(uri.clone())
            }
        },
    }
}

} // verus!
