//! Merging what several providers know of the same artists, releases and
//! tracks. What the listener holds locally always wins.
use crate::api::{SearchResults, SearchResultsModel};
use crate::catalog::{
    or_one, Artist, ArtistModel, ArtistRef, ArtistRefModel, AudioSource, CatalogSource, Release,
    ReleaseModel, Track, TrackModel,
};
use crate::find::{first_where, lemma_first_where, lemma_first_where_is};
use crate::names::{is_name_fn, key_of, keys_by};
use crate::sort::{
    in_order, is_order, lemma_sorted_views, sorting_is_a_permutation, sorting_orders, stable_sort,
    stable_sorted,
};
use crate::text::{lemma_text_lt_total, lemma_text_lt_transitive, str_lt, text_lt};
use crate::views::views;
use vstd::prelude::*;

verus! {

broadcast use crate::views::group_views;

/// From names to the keys they are compared by.
pub type NameKeys = spec_fn(Seq<char>) -> Seq<char>;

/// Whether one of the credits goes by a name that counts as `name`.
pub open spec fn is_credited(keys: NameKeys, credits: Seq<ArtistRefModel>, name: Seq<char>) -> bool {
    exists|i: int| 0 <= i < credits.len() && keys((#[trigger] credits[i]).name) == keys(name)
}

/// The credits `target`, and behind them those of `incoming` whose names are
/// not among them yet.
pub open spec fn merged_refs(
    keys: NameKeys,
    target: Seq<ArtistRefModel>,
    incoming: Seq<ArtistRefModel>,
) -> Seq<ArtistRefModel>
    decreases incoming.len(),
{
    if incoming.len() == 0 {
        target
    } else {
        let so_far = merged_refs(keys, target, incoming.drop_last());
        if is_credited(keys, so_far, incoming.last().name) {
            so_far
        } else {
            so_far.push(incoming.last())
        }
    }
}

/// Every credit on the tracks, in order, main artists before featured ones.
pub open spec fn track_credits(tracks: Seq<TrackModel>) -> Seq<ArtistRefModel>
    decreases tracks.len(),
{
    if tracks.len() == 0 {
        Seq::empty()
    } else {
        track_credits(tracks.drop_last()) + (tracks.last().artists
            + tracks.last().featured_artists)
    }
}

/// The featured artists of a release: those it names, and those of `credits`
/// that it names nowhere.
pub open spec fn contributors(
    keys: NameKeys,
    main: Seq<ArtistRefModel>,
    featured: Seq<ArtistRefModel>,
    credits: Seq<ArtistRefModel>,
) -> Seq<ArtistRefModel>
    decreases credits.len(),
{
    if credits.len() == 0 {
        featured
    } else {
        let so_far = contributors(keys, main, featured, credits.drop_last());
        if is_credited(keys, main + so_far, credits.last().name) {
            so_far
        } else {
            so_far.push(credits.last())
        }
    }
}

/// The release with everyone credited on one of its tracks among its artists.
pub open spec fn populated(keys: NameKeys, release: ReleaseModel) -> ReleaseModel {
    ReleaseModel {
        featured_artists: contributors(
            keys,
            release.artists,
            release.featured_artists,
            track_credits(release.tracks),
        ),
        ..release
    }
}

/// A track without a number comes behind all that have one.
pub open spec fn or_last(n: Option<u32>) -> u32 {
    match n {
        Some(n) => n,
        None => u32::MAX,
    }
}

/// The order of tracks on a release: by disc, by number, by title.
pub open spec fn plays_before() -> spec_fn(TrackModel, TrackModel) -> bool {
    |a: TrackModel, b: TrackModel|
        if or_one(a.disc_number) != or_one(b.disc_number) {
            or_one(a.disc_number) < or_one(b.disc_number)
        } else if or_last(a.track_number) != or_last(b.track_number) {
            or_last(a.track_number) < or_last(b.track_number)
        } else {
            text_lt(a.title, b.title)
        }
}

/// Whether two records within one release stand for the same track: their keys
/// match, or their positions agree, or their titles do.
pub open spec fn match_within_release(keys: NameKeys, a: TrackModel, b: TrackModel) -> bool {
    ||| a.key.matches(b.key)
    ||| a.track_number is Some && a.track_number == b.track_number && or_one(a.disc_number)
        == or_one(b.disc_number)
    ||| keys(a.title) == keys(b.title)
}

pub open spec fn within_release(keys: NameKeys) -> spec_fn(TrackModel, TrackModel) -> bool {
    |a: TrackModel, b: TrackModel| match_within_release(keys, a, b)
}

pub open spec fn same_catalog() -> spec_fn(TrackModel, TrackModel) -> bool {
    |a: TrackModel, b: TrackModel| a.same_catalog_track(b)
}

/// `track` merged into `tracks`: where one of them counts as the same, it stays,
/// unless it is federated and `track` is local; else `track` comes last.
pub open spec fn with_track(
    same: spec_fn(TrackModel, TrackModel) -> bool,
    tracks: Seq<TrackModel>,
    track: TrackModel,
) -> Seq<TrackModel> {
    let i = first_where(tracks, |item: TrackModel| same(item, track));
    if i == tracks.len() {
        tracks.push(track)
    } else if tracks[i].audio_source is Federation && track.audio_source is LocalFile {
        tracks.update(i, track)
    } else {
        tracks
    }
}

pub open spec fn merged_tracks(
    same: spec_fn(TrackModel, TrackModel) -> bool,
    target: Seq<TrackModel>,
    incoming: Seq<TrackModel>,
) -> Seq<TrackModel>
    decreases incoming.len(),
{
    if incoming.len() == 0 {
        target
    } else {
        with_track(same, merged_tracks(same, target, incoming.drop_last()), incoming.last())
    }
}

/// `target` with what `incoming` adds to it: artwork where it has none, credits,
/// and tracks, which are put in order.
pub open spec fn enriched(keys: NameKeys, target: ReleaseModel, incoming: ReleaseModel) -> ReleaseModel {
    populated(
        keys,
        ReleaseModel {
            artwork: if target.artwork is None {
                incoming.artwork
            } else {
                target.artwork
            },
            artists: merged_refs(keys, target.artists, incoming.artists),
            featured_artists: merged_refs(
                keys,
                target.featured_artists,
                incoming.featured_artists,
            ),
            tracks: stable_sorted(
                merged_tracks(within_release(keys), target.tracks, incoming.tracks),
                plays_before(),
            ),
            ..target
        },
    )
}

/// Two records of one release as one: the local one, or else the first,
/// enriched by the other.
pub open spec fn merged_release(
    keys: NameKeys,
    target: ReleaseModel,
    incoming: ReleaseModel,
) -> ReleaseModel {
    if target.source is Federation && incoming.source is Local {
        enriched(keys, incoming, target)
    } else {
        enriched(keys, target, incoming)
    }
}

pub open spec fn larger(a: usize, b: usize) -> usize {
    if a < b {
        b
    } else {
        a
    }
}

/// `artist` merged into `artists`: an entry with its key takes the larger
/// counts, and the artwork where it has none; else `artist` comes last.
pub open spec fn with_artist(artists: Seq<ArtistModel>, artist: ArtistModel) -> Seq<ArtistModel> {
    let i = first_where(artists, |item: ArtistModel| item.key == artist.key);
    if i == artists.len() {
        artists.push(artist)
    } else {
        artists.update(
            i,
            ArtistModel {
                release_count: larger(artists[i].release_count, artist.release_count),
                track_count: larger(artists[i].track_count, artist.track_count),
                artwork: if artists[i].artwork is None {
                    artist.artwork
                } else {
                    artists[i].artwork
                },
                ..artists[i]
            },
        )
    }
}

pub open spec fn merged_artists(target: Seq<ArtistModel>, incoming: Seq<ArtistModel>) -> Seq<
    ArtistModel,
>
    decreases incoming.len(),
{
    if incoming.len() == 0 {
        target
    } else {
        with_artist(merged_artists(target, incoming.drop_last()), incoming.last())
    }
}

/// A release as it arrives: everyone on its tracks credited, its tracks in
/// order.
pub open spec fn arranged(keys: NameKeys, release: ReleaseModel) -> ReleaseModel {
    ReleaseModel {
        tracks: stable_sorted(release.tracks, plays_before()),
        ..populated(keys, release)
    }
}

pub open spec fn with_release(
    keys: NameKeys,
    releases: Seq<ReleaseModel>,
    release: ReleaseModel,
) -> Seq<ReleaseModel> {
    let i = first_where(releases, |item: ReleaseModel| item.key == release.key);
    if i == releases.len() {
        releases.push(arranged(keys, release))
    } else {
        releases.update(i, merged_release(keys, releases[i], arranged(keys, release)))
    }
}

pub open spec fn merged_releases(
    keys: NameKeys,
    target: Seq<ReleaseModel>,
    incoming: Seq<ReleaseModel>,
) -> Seq<ReleaseModel>
    decreases incoming.len(),
{
    if incoming.len() == 0 {
        target
    } else {
        with_release(keys, merged_releases(keys, target, incoming.drop_last()), incoming.last())
    }
}

pub open spec fn merged_results(
    keys: NameKeys,
    target: SearchResultsModel,
    incoming: SearchResultsModel,
) -> SearchResultsModel {
    SearchResultsModel {
        artists: merged_artists(target.artists, incoming.artists),
        releases: merged_releases(keys, target.releases, incoming.releases),
        tracks: merged_tracks(same_catalog(), target.tracks, incoming.tracks),
    }
}

/// Merges the results of another provider into those at hand.
pub fn merge_search_results<F: Fn(&str) -> String>(
    target: &mut SearchResults,
    incoming: SearchResults,
    names: &F,
)
    requires
        is_name_fn(names),
    ensures
        final(target)@ == merged_results(keys_by(names), old(target)@, incoming@),
{
    merge_artists(&mut target.artists, incoming.artists);
    merge_releases(&mut target.releases, incoming.releases, names);
    let same = |a: &Track, b: &Track| -> (y: bool)
        ensures
            y == same_catalog()(a@, b@),
        { a.same_catalog_track(b) };
    merge_tracks(&mut target.tracks, incoming.tracks, same, Ghost(same_catalog()));
}

fn merge_artists(target: &mut Vec<Artist>, incoming: Vec<Artist>)
    ensures
        views(final(target)@) == merged_artists(views(old(target)@), views(incoming@)),
{
    let ghost all = views(incoming@);
    let mut rest = incoming;
    let ghost mut done: int = 0;
    while rest.len() > 0
        invariant
            0 <= done,
            done + rest.len() == all.len(),
            views(rest@) == all.skip(done),
            views(target@) == merged_artists(views(old(target)@), all.take(done)),
        decreases rest.len(),
    {
        let ghost before = target@;
        let artist = rest.remove(0);
        proof {
            assert(artist@ == all[done]);
            assert(all.take(done + 1).drop_last() =~= all.take(done));
            assert(views(rest@) =~= all.skip(done + 1));
        }
        let mut i: usize = 0;
        while i < target.len() && target[i].key != artist.key
            invariant
                i <= target.len(),
                forall|j: int| 0 <= j < i ==> (#[trigger] views(target@)[j]).key != artist@.key,
            ensures
                i <= target.len(),
                i < target.len() ==> views(target@)[i as int].key == artist@.key,
                forall|j: int| 0 <= j < i ==> (#[trigger] views(target@)[j]).key != artist@.key,
            decreases target.len() - i,
        {
            i += 1;
        }
        proof {
            lemma_first_where(
                views(before),
                |item: ArtistModel| item.key == artist@.key,
                i as int,
            );
        }
        if i < target.len() {
            let release_count = if target[i].release_count < artist.release_count {
                artist.release_count
            } else {
                target[i].release_count
            };
            let track_count = if target[i].track_count < artist.track_count {
                artist.track_count
            } else {
                target[i].track_count
            };
            let artwork = if target[i].artwork.uri.is_none() {
                artist.artwork.clone()
            } else {
                target[i].artwork.clone()
            };
            let merged = Artist {
                key: target[i].key.clone(),
                source: target[i].source.clone(),
                name: target[i].name.clone(),
                artwork,
                release_count,
                track_count,
            };
            target[i] = merged;
        } else {
            target.push(artist);
        }
        proof {
            done = done + 1;
        }
    }
    proof {
        assert(all.take(done) =~= all);
    }
}

fn merge_releases<F: Fn(&str) -> String>(
    target: &mut Vec<Release>,
    incoming: Vec<Release>,
    names: &F,
)
    requires
        is_name_fn(names),
    ensures
        views(final(target)@) == merged_releases(
            keys_by(names),
            views(old(target)@),
            views(incoming@),
        ),
{
    let ghost keys = keys_by(names);
    let ghost all = views(incoming@);
    let mut rest = incoming;
    let ghost mut done: int = 0;
    while rest.len() > 0
        invariant
            is_name_fn(names),
            keys == keys_by(names),
            0 <= done,
            done + rest.len() == all.len(),
            views(rest@) == all.skip(done),
            views(target@) == merged_releases(keys, views(old(target)@), all.take(done)),
        decreases rest.len(),
    {
        let ghost before = target@;
        let mut release = rest.remove(0);
        proof {
            assert(release@ == all[done]);
            assert(all.take(done + 1).drop_last() =~= all.take(done));
            assert(views(rest@) =~= all.skip(done + 1));
        }
        populate_release_contributors(&mut release, names);
        release.tracks = sort_release_tracks(release.tracks);
        let mut i: usize = 0;
        while i < target.len() && target[i].key != release.key
            invariant
                i <= target.len(),
                forall|j: int| 0 <= j < i ==> (#[trigger] views(target@)[j]).key != release@.key,
            ensures
                i <= target.len(),
                i < target.len() ==> views(target@)[i as int].key == release@.key,
                forall|j: int| 0 <= j < i ==> (#[trigger] views(target@)[j]).key != release@.key,
            decreases target.len() - i,
        {
            i += 1;
        }
        proof {
            lemma_first_where(
                views(before),
                |item: ReleaseModel| item.key == all[done].key,
                i as int,
            );
        }
        if i < target.len() {
            let mut merged = target[i].clone();
            merge_release_preserving_local(&mut merged, release, names);
            target[i] = merged;
        } else {
            target.push(release);
        }
        proof {
            done = done + 1;
        }
    }
    proof {
        assert(all.take(done) =~= all);
    }
}

pub(crate) fn merge_tracks<S: Fn(&Track, &Track) -> bool>(
    target: &mut Vec<Track>,
    incoming: Vec<Track>,
    same: S,
    Ghost(model): Ghost<spec_fn(TrackModel, TrackModel) -> bool>,
)
    requires
        forall|a: &Track, b: &Track| #[trigger] same.requires((a, b)),
        forall|a: &Track, b: &Track, y: bool| #[trigger]
            same.ensures((a, b), y) ==> y == model(a@, b@),
    ensures
        views(final(target)@) == merged_tracks(model, views(old(target)@), views(incoming@)),
{
    let ghost all = views(incoming@);
    let mut rest = incoming;
    let ghost mut done: int = 0;
    while rest.len() > 0
        invariant
            forall|a: &Track, b: &Track| #[trigger] same.requires((a, b)),
            forall|a: &Track, b: &Track, y: bool| #[trigger]
                same.ensures((a, b), y) ==> y == model(a@, b@),
            0 <= done,
            done + rest.len() == all.len(),
            views(rest@) == all.skip(done),
            views(target@) == merged_tracks(model, views(old(target)@), all.take(done)),
        decreases rest.len(),
    {
        let ghost before = target@;
        let track = rest.remove(0);
        proof {
            assert(track@ == all[done]);
            assert(all.take(done + 1).drop_last() =~= all.take(done));
            assert(views(rest@) =~= all.skip(done + 1));
        }
        let mut i: usize = 0;
        while i < target.len() && !same(&target[i], &track)
            invariant
                forall|a: &Track, b: &Track| #[trigger] same.requires((a, b)),
                forall|a: &Track, b: &Track, y: bool| #[trigger]
                    same.ensures((a, b), y) ==> y == model(a@, b@),
                i <= target.len(),
                forall|j: int| 0 <= j < i ==> !model(#[trigger] views(target@)[j], track@),
            ensures
                i <= target.len(),
                i < target.len() ==> model(views(target@)[i as int], track@),
                forall|j: int| 0 <= j < i ==> !model(#[trigger] views(target@)[j], track@),
            decreases target.len() - i,
        {
            i += 1;
        }
        proof {
            lemma_first_where(views(before), |item: TrackModel| model(item, track@), i as int);
        }
        if i < target.len() {
            let replaces = matches!(target[i].audio_source, AudioSource::Federation { .. })
                && matches!(track.audio_source, AudioSource::LocalFile(_));
            if replaces {
                target[i] = track;
            }
        } else {
            target.push(track);
        }
        proof {
            done = done + 1;
        }
    }
    proof {
        assert(all.take(done) =~= all);
    }
}

/// Merges two records of one release. What is local stays.
pub fn merge_release_preserving_local<F: Fn(&str) -> String>(
    target: &mut Release,
    incoming: Release,
    names: &F,
)
    requires
        is_name_fn(names),
    ensures
        final(target)@ == merged_release(keys_by(names), old(target)@, incoming@),
{
    let swapped = matches!(target.source, CatalogSource::Federation { .. }) && matches!(
        incoming.source,
        CatalogSource::Local
    );
    let mut incoming = incoming;
    if swapped {
        std::mem::swap(target, &mut incoming);
    }
    if target.artwork.uri.is_none() {
        target.artwork = incoming.artwork;
    }
    merge_artist_refs(&mut target.artists, incoming.artists, names);
    merge_artist_refs(&mut target.featured_artists, incoming.featured_artists, names);
    let ghost keys = keys_by(names);
    let same = |a: &Track, b: &Track| -> (y: bool)
        requires
            is_name_fn(names),
        ensures
            y == within_release(keys_by(names))(a@, b@),
        { tracks_match_within_release(a, b, names) };
    let mut tracks: Vec<Track> = Vec::new();
    std::mem::swap(&mut tracks, &mut target.tracks);
    merge_tracks(&mut tracks, incoming.tracks, same, Ghost(within_release(keys)));
    target.tracks = sort_release_tracks(tracks);
    populate_release_contributors(target, names);
}

/// Puts the tracks of a release in the order they play.
pub fn sort_release_tracks(tracks: Vec<Track>) -> (r: Vec<Track>)
    ensures
        views(r@) == stable_sorted(views(tracks@), plays_before()),
{
    let ghost lt = |a: Track, b: Track| plays_before()(a@, b@);
    let before = |a: &Track, b: &Track| -> (y: bool)
        ensures
            y == lt(*a, *b),
        {
            let left: u32 = a.disc_number.unwrap_or(1);
            let right: u32 = b.disc_number.unwrap_or(1);
            if left != right {
                left < right
            } else {
                let left: u32 = a.track_number.unwrap_or(u32::MAX);
                let right: u32 = b.track_number.unwrap_or(u32::MAX);
                if left != right {
                    left < right
                } else {
                    str_lt(a.title.as_str(), b.title.as_str())
                }
            }
        };
    let ghost all = tracks@;
    proof {
        lemma_sorted_views(all, lt, plays_before());
    }
    stable_sort(tracks, before, Ghost(lt))
}

/// Matches provider records within an already identified release. Track and
/// disc position are more reliable here than optional descriptive metadata.
pub fn tracks_match_within_release<F: Fn(&str) -> String>(
    left: &Track,
    right: &Track,
    names: &F,
) -> (r: bool)
    requires
        is_name_fn(names),
    ensures
        r == match_within_release(keys_by(names), left@, right@),
{
    if left.key.matches(&right.key) {
        return true;
    }
    if let (Some(left_number), Some(right_number)) = (left.track_number, right.track_number) {
        if left_number == right_number && left.disc_number.unwrap_or(1)
            == right.disc_number.unwrap_or(1) {
            return true;
        }
    }
    key_of(names, left.title.as_str()) == key_of(names, right.title.as_str())
}

fn credited<F: Fn(&str) -> String>(credits: &Vec<ArtistRef>, name: &str, names: &F) -> (r: bool)
    requires
        is_name_fn(names),
    ensures
        r == is_credited(keys_by(names), views(credits@), name@),
{
    let key = key_of(names, name);
    let mut i: usize = 0;
    while i < credits.len()
        invariant
            is_name_fn(names),
            key@ == keys_by(names)(name@),
            i <= credits.len(),
            forall|j: int|
                0 <= j < i ==> keys_by(names)((#[trigger] views(credits@)[j]).name) != key@,
        decreases credits.len() - i,
    {
        if key_of(names, credits[i].name.as_str()) == key {
            assert(keys_by(names)(views(credits@)[i as int].name) == key@);
            return true;
        }
        i += 1;
    }
    false
}

/// Appends the credits whose names are not there yet.
pub fn merge_artist_refs<F: Fn(&str) -> String>(
    target: &mut Vec<ArtistRef>,
    incoming: Vec<ArtistRef>,
    names: &F,
)
    requires
        is_name_fn(names),
    ensures
        views(final(target)@) == merged_refs(
            keys_by(names),
            views(old(target)@),
            views(incoming@),
        ),
{
    let ghost keys = keys_by(names);
    let ghost all = views(incoming@);
    let mut rest = incoming;
    let ghost mut done: int = 0;
    while rest.len() > 0
        invariant
            is_name_fn(names),
            keys == keys_by(names),
            0 <= done,
            done + rest.len() == all.len(),
            views(rest@) == all.skip(done),
            views(target@) == merged_refs(keys, views(old(target)@), all.take(done)),
        decreases rest.len(),
    {
        let artist = rest.remove(0);
        proof {
            assert(artist@ == all[done]);
            assert(all.take(done + 1).drop_last() =~= all.take(done));
            assert(views(rest@) =~= all.skip(done + 1));
        }
        if !credited(target, artist.name.as_str(), names) {
            target.push(artist);
        }
        proof {
            done = done + 1;
        }
    }
    proof {
        assert(all.take(done) =~= all);
    }
}

pub(crate) fn credits_of(tracks: &Vec<Track>) -> (r: Vec<ArtistRef>)
    ensures
        views(r@) == track_credits(views(tracks@)),
{
    let ghost all = views(tracks@);
    let mut r: Vec<ArtistRef> = Vec::new();
    let mut i: usize = 0;
    while i < tracks.len()
        invariant
            i <= tracks.len() == all.len(),
            all == views(tracks@),
            views(r@) == track_credits(all.take(i as int)),
        decreases tracks.len() - i,
    {
        let ghost before = views(r@);
        let mut main = tracks[i].artists.clone();
        let mut featured = tracks[i].featured_artists.clone();
        proof {
            assert(views(main@) =~= all[i as int].artists);
            assert(views(featured@) =~= all[i as int].featured_artists);
            assert(all.take(i + 1).drop_last() =~= all.take(i as int));
        }
        r.append(&mut main);
        r.append(&mut featured);
        proof {
            assert(views(r@) =~= before + (all[i as int].artists
                + all[i as int].featured_artists));
        }
        i += 1;
    }
    proof {
        assert(all.take(i as int) =~= all);
    }
    r
}

/// Credits everyone who is credited on one of the tracks.
pub fn populate_release_contributors<F: Fn(&str) -> String>(release: &mut Release, names: &F)
    requires
        is_name_fn(names),
    ensures
        final(release)@ == populated(keys_by(names), old(release)@),
{
    let ghost keys = keys_by(names);
    let ghost main = views(release.artists@);
    let ghost featured = views(release.featured_artists@);
    let mut rest = credits_of(&release.tracks);
    let ghost all = views(rest@);
    let ghost mut done: int = 0;
    while rest.len() > 0
        invariant
            is_name_fn(names),
            keys == keys_by(names),
            0 <= done,
            done + rest.len() == all.len(),
            views(rest@) == all.skip(done),
            main == views(release.artists@),
            *release == (Release { featured_artists: release.featured_artists, ..*old(release) }),
            views(release.featured_artists@) == contributors(
                keys,
                main,
                featured,
                all.take(done),
            ),
        decreases rest.len(),
    {
        let artist = rest.remove(0);
        proof {
            assert(artist@ == all[done]);
            assert(all.take(done + 1).drop_last() =~= all.take(done));
            assert(views(rest@) =~= all.skip(done + 1));
            lemma_credited_in_either(
                keys,
                main,
                views(release.featured_artists@),
                artist@.name,
            );
        }
        if !credited(&release.artists, artist.name.as_str(), names) && !credited(
            &release.featured_artists,
            artist.name.as_str(),
            names,
        ) {
            release.featured_artists.push(artist);
        }
        proof {
            done = done + 1;
        }
    }
    proof {
        assert(all.take(done) =~= all);
    }
}

pub proof fn lemma_credited_in_either(
    keys: NameKeys,
    a: Seq<ArtistRefModel>,
    b: Seq<ArtistRefModel>,
    name: Seq<char>,
)
    ensures
        is_credited(keys, a + b, name) == (is_credited(keys, a, name) || is_credited(
            keys,
            b,
            name,
        )),
{
    if is_credited(keys, a, name) {
        let i = choose|i: int| 0 <= i < a.len() && keys((#[trigger] a[i]).name) == keys(name);
        assert((a + b)[i] == a[i]);
    }
    if is_credited(keys, b, name) {
        let i = choose|i: int| 0 <= i < b.len() && keys((#[trigger] b[i]).name) == keys(name);
        assert((a + b)[a.len() + i] == b[i]);
    }
    if is_credited(keys, a + b, name) {
        let i = choose|i: int|
            0 <= i < (a + b).len() && keys((#[trigger] (a + b)[i]).name) == keys(name);
        if i < a.len() {
            assert(keys(a[i].name) == keys(name));
        } else {
            assert(keys(b[i - a.len()].name) == keys(name));
        }
    }
}

proof fn lemma_plays_before_is_an_order()
    ensures
        is_order(plays_before()),
{
    let lt = plays_before();
    assert forall|a: TrackModel| !#[trigger] lt(a, a) by {
        lemma_text_lt_total(a.title, a.title);
    }
    assert forall|a: TrackModel, b: TrackModel, c: TrackModel| #[trigger]
        lt(a, b) && #[trigger] lt(b, c) implies lt(a, c) by {
        if text_lt(a.title, b.title) && text_lt(b.title, c.title) {
            lemma_text_lt_transitive(a.title, b.title, c.title);
        }
    }
    assert forall|a: TrackModel, b: TrackModel, c: TrackModel|
        #![trigger lt(a, b), lt(b, c)]
        !lt(a, b) && !lt(b, c) implies !lt(a, c) by {
        lemma_text_lt_total(a.title, b.title);
        lemma_text_lt_total(b.title, c.title);
        lemma_text_lt_total(a.title, c.title);
        if text_lt(c.title, b.title) && text_lt(b.title, a.title) {
            lemma_text_lt_transitive(c.title, b.title, a.title);
        }
    }
}

/// Whatever arrives, and in whatever order, the tracks of a merged release are
/// in the order they play, and so are those of a release that is new.
pub proof fn release_tracks_are_in_order(
    keys: NameKeys,
    target: ReleaseModel,
    incoming: ReleaseModel,
)
    ensures
        in_order(merged_release(keys, target, incoming).tracks, plays_before()),
        in_order(arranged(keys, incoming).tracks, plays_before()),
{
    lemma_plays_before_is_an_order();
    sorting_orders(
        merged_tracks(within_release(keys), target.tracks, incoming.tracks),
        plays_before(),
    );
    sorting_orders(
        merged_tracks(within_release(keys), incoming.tracks, target.tracks),
        plays_before(),
    );
    sorting_orders(incoming.tracks, plays_before());
}

/// A local track stays where it is, whatever is merged into the list.
pub proof fn local_tracks_stay(
    same: spec_fn(TrackModel, TrackModel) -> bool,
    target: Seq<TrackModel>,
    incoming: Seq<TrackModel>,
    i: int,
)
    requires
        0 <= i < target.len(),
        target[i].audio_source is LocalFile,
    ensures
        target.len() <= merged_tracks(same, target, incoming).len(),
        merged_tracks(same, target, incoming)[i] == target[i],
    decreases incoming.len(),
{
    if incoming.len() > 0 {
        local_tracks_stay(same, target, incoming.drop_last(), i);
        lemma_first_where_is(
            merged_tracks(same, target, incoming.drop_last()),
            |item: TrackModel| same(item, incoming.last()),
        );
    }
}

/// Enriching a release by federated data replaces none of its local tracks.
pub proof fn local_tracks_survive_enrichment(
    keys: NameKeys,
    target: ReleaseModel,
    incoming: ReleaseModel,
    i: int,
)
    requires
        0 <= i < target.tracks.len(),
        target.tracks[i].audio_source is LocalFile,
        target.source is Local || incoming.source is Federation,
    ensures
        merged_release(keys, target, incoming).tracks.contains(target.tracks[i]),
{
    broadcast use vstd::seq_lib::group_to_multiset_ensures;

    let merged = merged_tracks(within_release(keys), target.tracks, incoming.tracks);
    local_tracks_stay(within_release(keys), target.tracks, incoming.tracks, i);
    sorting_is_a_permutation(merged, plays_before());
    let sorted = stable_sorted(merged, plays_before());
    assert(merged.contains(merged[i]));
    assert(sorted.to_multiset().count(merged[i]) > 0);
    assert(sorted.contains(target.tracks[i]));
}

/// What a release is called, where it comes from and when it appeared is told by
/// the local record alone, and its artwork too where it has any.
pub proof fn local_metadata_is_never_shadowed(
    keys: NameKeys,
    local: ReleaseModel,
    federated: ReleaseModel,
)
    requires
        local.source is Local,
        federated.source is Federation,
    ensures
        forall|merged: ReleaseModel|
            merged == merged_release(keys, local, federated) || merged == merged_release(
                keys,
                federated,
                local,
            ) ==> {
                &&& (#[trigger] merged.key) == local.key
                &&& merged.source == local.source
                &&& merged.title == local.title
                &&& merged.release_type == local.release_type
                &&& merged.year == local.year
                &&& local.artwork is Some ==> merged.artwork == local.artwork
            },
        merged_release(keys, local, federated) == merged_release(keys, federated, local),
{
}

/// No two entries have the same key.
pub open spec fn distinct_artists(artists: Seq<ArtistModel>) -> bool {
    forall|i: int, j: int|
        0 <= i < j < artists.len() ==> (#[trigger] artists[i]).key != (#[trigger] artists[j]).key
}

pub open spec fn distinct_releases(releases: Seq<ReleaseModel>) -> bool {
    forall|i: int, j: int|
        0 <= i < j < releases.len() ==> (#[trigger] releases[i]).key != (#[trigger] releases[j]).key
}

/// Merging never makes two entries of one artist or one release.
pub proof fn merging_keeps_keys_distinct(
    keys: NameKeys,
    target: SearchResultsModel,
    incoming: SearchResultsModel,
)
    requires
        distinct_artists(target.artists),
        distinct_releases(target.releases),
    ensures
        distinct_artists(merged_results(keys, target, incoming).artists),
        distinct_releases(merged_results(keys, target, incoming).releases),
{
    lemma_artists_stay_distinct(target.artists, incoming.artists);
    lemma_releases_stay_distinct(keys, target.releases, incoming.releases);
}

proof fn lemma_artists_stay_distinct(target: Seq<ArtistModel>, incoming: Seq<ArtistModel>)
    requires
        distinct_artists(target),
    ensures
        distinct_artists(merged_artists(target, incoming)),
    decreases incoming.len(),
{
    if incoming.len() > 0 {
        lemma_artists_stay_distinct(target, incoming.drop_last());
        lemma_first_where_is(
            merged_artists(target, incoming.drop_last()),
            |item: ArtistModel| item.key == incoming.last().key,
        );
    }
}

proof fn lemma_releases_stay_distinct(
    keys: NameKeys,
    target: Seq<ReleaseModel>,
    incoming: Seq<ReleaseModel>,
)
    requires
        distinct_releases(target),
    ensures
        distinct_releases(merged_releases(keys, target, incoming)),
    decreases incoming.len(),
{
    if incoming.len() > 0 {
        lemma_releases_stay_distinct(keys, target, incoming.drop_last());
        lemma_first_where_is(
            merged_releases(keys, target, incoming.drop_last()),
            |item: ReleaseModel| item.key == incoming.last().key,
        );
    }
}

proof fn lemma_merged_refs_extend(
    keys: NameKeys,
    target: Seq<ArtistRefModel>,
    incoming: Seq<ArtistRefModel>,
)
    ensures
        target.len() <= merged_refs(keys, target, incoming).len(),
        forall|i: int|
            0 <= i < target.len() ==> merged_refs(keys, target, incoming)[i] == #[trigger] target[i],
        forall|i: int|
            0 <= i < incoming.len() ==> is_credited(
                keys,
                merged_refs(keys, target, incoming),
                (#[trigger] incoming[i]).name,
            ),
    decreases incoming.len(),
{
    if incoming.len() > 0 {
        let front = incoming.drop_last();
        let so_far = merged_refs(keys, target, front);
        let r = merged_refs(keys, target, incoming);
        lemma_merged_refs_extend(keys, target, front);
        assert forall|i: int| 0 <= i < incoming.len() implies is_credited(
            keys,
            r,
            (#[trigger] incoming[i]).name,
        ) by {
            if i < front.len() {
                assert(is_credited(keys, so_far, front[i].name));
                let k = choose|k: int|
                    0 <= k < so_far.len() && keys((#[trigger] so_far[k]).name) == keys(
                        incoming[i].name,
                    );
                assert(r[k] == so_far[k]);
            } else if !is_credited(keys, so_far, incoming.last().name) {
                assert(r[so_far.len() as int] == incoming[i]);
            }
        }
    }
}

/// The credits at hand stay in front, everyone who arrives is credited, and
/// arriving again changes nothing.
pub proof fn merging_credits_again_changes_nothing(
    keys: NameKeys,
    target: Seq<ArtistRefModel>,
    incoming: Seq<ArtistRefModel>,
)
    ensures
        target.is_prefix_of(merged_refs(keys, target, incoming)),
        forall|i: int|
            0 <= i < incoming.len() ==> is_credited(
                keys,
                merged_refs(keys, target, incoming),
                (#[trigger] incoming[i]).name,
            ),
        merged_refs(keys, merged_refs(keys, target, incoming), incoming) == merged_refs(
            keys,
            target,
            incoming,
        ),
{
    lemma_merged_refs_extend(keys, target, incoming);
    assert(target =~= merged_refs(keys, target, incoming).take(target.len() as int));
    lemma_nothing_new(keys, merged_refs(keys, target, incoming), incoming);
}

proof fn lemma_nothing_new(
    keys: NameKeys,
    target: Seq<ArtistRefModel>,
    incoming: Seq<ArtistRefModel>,
)
    requires
        forall|i: int|
            0 <= i < incoming.len() ==> is_credited(keys, target, (#[trigger] incoming[i]).name),
    ensures
        merged_refs(keys, target, incoming) == target,
    decreases incoming.len(),
{
    if incoming.len() > 0 {
        assert(is_credited(keys, target, incoming[incoming.len() - 1].name));
        assert forall|i: int| 0 <= i < incoming.drop_last().len() implies is_credited(
            keys,
            target,
            (#[trigger] incoming.drop_last()[i]).name,
        ) by {
            assert(is_credited(keys, target, incoming[i].name));
        }
        lemma_nothing_new(keys, target, incoming.drop_last());
    }
}

} // verus!
