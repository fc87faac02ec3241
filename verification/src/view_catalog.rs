//! What the window shows of the catalog: everything at hand that belongs to the
//! chosen artist, release or playlist, each thing once.
use crate::catalog::{
    catalog_text, normalized_catalog_text, or_one, ArtistKey, ArtistKeyModel, ArtistRef,
    ArtistRefModel, AudioSource, CatalogSource, Release, ReleaseModel, Track, TrackModel,
};
use crate::find::{first_where, found, lemma_first_where};
use crate::lookup::ref_view;
use crate::merge::{
    contributors, credits_of, is_credited, lemma_credited_in_either, merge_tracks, merged_refs,
    merged_tracks, plays_before, sort_release_tracks, track_credits, NameKeys,
};
use crate::sort::{is_order, kept, lemma_sorted_views, sorting_orders, stable_sort, stable_sorted};
use crate::text::{
    ascii_lower, lemma_text_lt_total, lemma_text_lt_transitive, str_lt, text_lt, to_ascii_lower,
    trim, trimmed,
};
use crate::views::{opt_view, views};
use vstd::prelude::*;

verus! {

broadcast use crate::views::group_views;

/// Names are compared without surrounding white space and in lower case.
pub open spec fn text_keys() -> NameKeys {
    |name: Seq<char>| catalog_text(name)
}

/// Whether two records within one release stand for the same track: their keys
/// match, or their positions agree, or their titles do.
pub open spec fn same_row() -> spec_fn(TrackModel, TrackModel) -> bool {
    |a: TrackModel, b: TrackModel|
        {
            ||| a.key.matches(b.key)
            ||| a.track_number is Some && a.track_number == b.track_number && or_one(
                a.disc_number,
            ) == or_one(b.disc_number)
            ||| ascii_lower(trimmed(a.title)) == ascii_lower(trimmed(b.title))
        }
}

/// A release with what another record of it adds.
pub open spec fn supplemented(target: ReleaseModel, incoming: ReleaseModel) -> ReleaseModel {
    ReleaseModel {
        artwork: if target.artwork is None {
            incoming.artwork
        } else {
            target.artwork
        },
        artists: merged_refs(text_keys(), target.artists, incoming.artists),
        featured_artists: merged_refs(
            text_keys(),
            target.featured_artists,
            incoming.featured_artists,
        ),
        tracks: stable_sorted(
            merged_tracks(same_row(), target.tracks, incoming.tracks),
            plays_before(),
        ),
        ..target
    }
}

/// Two records of one release as one: the local one, or else the first,
/// supplemented by the other.
pub open spec fn shown_together(target: ReleaseModel, incoming: ReleaseModel) -> ReleaseModel {
    if target.source is Federation && incoming.source is Local {
        supplemented(incoming, target)
    } else {
        supplemented(target, incoming)
    }
}

fn is_named(credits: &Vec<ArtistRef>, name: &str) -> (r: bool)
    ensures
        r == is_credited(text_keys(), views(credits@), name@),
{
    let ghost all = views(credits@);
    let key = normalized_catalog_text(name);
    let mut i: usize = 0;
    while i < credits.len()
        invariant
            i <= credits.len() == all.len(),
            all == views(credits@),
            key@ == catalog_text(name@),
            forall|j: int| 0 <= j < i ==> text_keys()((#[trigger] all[j]).name) != key@,
        decreases credits.len() - i,
    {
        if normalized_catalog_text(credits[i].name.as_str()) == key {
            assert(text_keys()(all[i as int].name) == text_keys()(name@));
            return true;
        }
        assert(text_keys()(all[i as int].name) != key@);
        i += 1;
    }
    false
}

/// Appends the credits whose names are not there yet.
pub fn merge_credit_refs(target: &mut Vec<ArtistRef>, incoming: Vec<ArtistRef>)
    ensures
        views(final(target)@) == merged_refs(text_keys(), views(old(target)@), views(incoming@)),
{
    let ghost all = views(incoming@);
    let mut rest = incoming;
    let ghost mut done: int = 0;
    while rest.len() > 0
        invariant
            0 <= done,
            done + rest.len() == all.len(),
            views(rest@) == all.skip(done),
            views(target@) == merged_refs(text_keys(), views(old(target)@), all.take(done)),
        decreases rest.len(),
    {
        let artist = rest.remove(0);
        proof {
            assert(artist@ == all[done]);
            assert(all.take(done + 1).drop_last() =~= all.take(done));
            assert(views(rest@) =~= all.skip(done + 1));
        }
        if !is_named(target, artist.name.as_str()) {
            target.push(artist);
        }
        proof {
            done = done + 1;
        }
    }
    proof {
        assert(all.take(done) =~= all);
    }
}

/// Whether two records within one release stand for the same track.
pub fn rows_match(left: &Track, right: &Track) -> (r: bool)
    ensures
        r == same_row()(left@, right@),
{
    if left.key.matches(&right.key) {
        return true;
    }
    if let (Some(a), Some(b)) = (left.track_number, right.track_number) {
        if a == b && left.disc_number.unwrap_or(1) == right.disc_number.unwrap_or(1) {
            return true;
        }
    }
    to_ascii_lower(trim(left.title.as_str()).as_str()) == to_ascii_lower(
        trim(right.title.as_str()).as_str(),
    )
}

/// Makes one release of two records of it. What is local stays.
pub fn merge_release_availability(target: &mut Release, incoming: Release)
    ensures
        final(target)@ == shown_together(old(target)@, incoming@),
{
    let swapped = matches!(target.source, CatalogSource::Federation { .. }) && matches!(
        incoming.source,
        CatalogSource::Local
    );
    let mut incoming = incoming;
    if swapped {
        std::mem::swap(target, &mut incoming);
    }
    if target.artwork.uri.is_none() {
        target.artwork = incoming.artwork;
    }
    merge_credit_refs(&mut target.artists, incoming.artists);
    merge_credit_refs(&mut target.featured_artists, incoming.featured_artists);
    let same = |a: &Track, b: &Track| -> (y: bool)
        ensures
            y == same_row()(a@, b@),
        { rows_match(a, b) };
    let mut tracks: Vec<Track> = Vec::new();
    std::mem::swap(&mut tracks, &mut target.tracks);
    merge_tracks(&mut tracks, incoming.tracks, same, Ghost(same_row()));
    target.tracks = sort_release_tracks(tracks);
}

/// Whether two records are of one release: same title, kind and year.
pub open spec fn is_same_release(release: ReleaseModel) -> spec_fn(ReleaseModel) -> bool {
    |other: ReleaseModel|
        {
            &&& catalog_text(other.title) == catalog_text(release.title)
            &&& catalog_text(other.release_type) == catalog_text(release.release_type)
            &&& other.year == release.year
        }
}

/// The releases with one more record.
pub open spec fn with_record(releases: Seq<ReleaseModel>, release: ReleaseModel) -> Seq<
    ReleaseModel,
> {
    let i = first_where(releases, is_same_release(release));
    if i < releases.len() {
        releases.update(i, shown_together(releases[i], release))
    } else {
        releases.push(release)
    }
}

/// The records, those of one release as one.
pub open spec fn without_doubles(releases: Seq<ReleaseModel>) -> Seq<ReleaseModel>
    decreases releases.len(),
{
    if releases.len() == 0 {
        Seq::empty()
    } else {
        with_record(without_doubles(releases.drop_last()), releases.last())
    }
}

fn same_year(a: Option<i32>, b: Option<i32>) -> (r: bool)
    ensures
        r == (a == b),
{
    match (a, b) {
        (Some(a), Some(b)) => a == b,
        (None, None) => true,
        _ => false,
    }
}

/// Makes one release of all records of it.
pub fn merge_artist_releases(releases: Vec<Release>) -> (r: Vec<Release>)
    ensures
        views(r@) == without_doubles(views(releases@)),
{
    let ghost all = views(releases@);
    let mut r: Vec<Release> = Vec::new();
    let mut rest = releases;
    let ghost mut done: int = 0;
    while rest.len() > 0
        invariant
            0 <= done,
            done + rest.len() == all.len(),
            views(rest@) == all.skip(done),
            views(r@) == without_doubles(all.take(done)),
        decreases rest.len(),
    {
        let release = rest.remove(0);
        proof {
            assert(release@ == all[done]);
            assert(all.take(done + 1).drop_last() =~= all.take(done));
            assert(views(rest@) =~= all.skip(done + 1));
        }
        let ghost before = views(r@);
        let ghost p = is_same_release(release@);
        let title = normalized_catalog_text(release.title.as_str());
        let kind = normalized_catalog_text(release.release_type.as_str());
        let mut i: usize = 0;
        while i < r.len() && !(normalized_catalog_text(r[i].title.as_str()) == title
            && normalized_catalog_text(r[i].release_type.as_str()) == kind && same_year(
            r[i].year,
            release.year,
        ))
            invariant
                i <= r.len() == before.len(),
                before == views(r@),
                p == is_same_release(release@),
                title@ == catalog_text(release@.title),
                kind@ == catalog_text(release@.release_type),
                forall|j: int| 0 <= j < i ==> !p(#[trigger] before[j]),
            decreases r.len() - i,
        {
            assert(!p(before[i as int]));
            i += 1;
        }
        proof {
            if i < before.len() {
                assert(p(before[i as int]));
            }
            lemma_first_where(before, p, i as int);
        }
        if i < r.len() {
            let mut merged = r.remove(i);
            proof {
                assert(merged@ == before[i as int]);
            }
            merge_release_availability(&mut merged, release);
            r.insert(i, merged);
            proof {
                assert(views(r@) =~= before.update(i as int, merged@));
            }
        } else {
            r.push(release);
        }
        proof {
            done = done + 1;
        }
    }
    proof {
        assert(all.take(done) =~= all);
    }
    r
}

/// A release of unknown year comes last.
pub open spec fn or_oldest(year: Option<i32>) -> i32 {
    match year {
        Some(year) => year,
        None => i32::MIN,
    }
}

/// The newest first; within a year by kind and title.
pub open spec fn newer() -> spec_fn(ReleaseModel, ReleaseModel) -> bool {
    |a: ReleaseModel, b: ReleaseModel|
        if or_oldest(a.year) != or_oldest(b.year) {
            or_oldest(a.year) > or_oldest(b.year)
        } else if a.release_type != b.release_type {
            text_lt(a.release_type, b.release_type)
        } else {
            text_lt(a.title, b.title)
        }
}

/// Sorts releases, the newest first.
pub fn sort_releases_newest_first(releases: Vec<Release>) -> (r: Vec<Release>)
    ensures
        views(r@) == stable_sorted(views(releases@), newer()),
{
    let ghost lt = |a: Release, b: Release| newer()(a@, b@);
    let before = |a: &Release, b: &Release| -> (y: bool)
        ensures
            y == lt(*a, *b),
        {
            let left: i32 = a.year.unwrap_or(i32::MIN);
            let right: i32 = b.year.unwrap_or(i32::MIN);
            if left != right {
                left > right
            } else if a.release_type != b.release_type {
                str_lt(a.release_type.as_str(), b.release_type.as_str())
            } else {
                str_lt(a.title.as_str(), b.title.as_str())
            }
        };
    proof {
        lemma_sorted_views(releases@, lt, newer());
    }
    stable_sort(releases, before, Ghost(lt))
}

/// After sorting no release stands behind an older one, and those of unknown
/// year stand last.
pub proof fn newest_releases_come_first(releases: Seq<ReleaseModel>, i: int, j: int)
    requires
        0 <= i < j < releases.len(),
    ensures
        or_oldest(stable_sorted(releases, newer())[i].year) >= or_oldest(
            stable_sorted(releases, newer())[j].year,
        ),
{
    let lt = newer();
    assert(is_order(lt)) by {
        assert forall|a: ReleaseModel| !#[trigger] lt(a, a) by {
            lemma_text_lt_total(a.title, a.title);
        }
        assert forall|a: ReleaseModel, b: ReleaseModel, c: ReleaseModel| #[trigger]
            lt(a, b) && #[trigger] lt(b, c) implies lt(a, c) by {
            lemma_text_lt_total(a.release_type, b.release_type);
            lemma_text_lt_total(b.release_type, c.release_type);
            lemma_text_lt_total(a.release_type, c.release_type);
            if text_lt(a.release_type, b.release_type) && text_lt(b.release_type, c.release_type) {
                lemma_text_lt_transitive(a.release_type, b.release_type, c.release_type);
            }
            if text_lt(a.title, b.title) && text_lt(b.title, c.title) {
                lemma_text_lt_transitive(a.title, b.title, c.title);
            }
        }
        assert forall|a: ReleaseModel, b: ReleaseModel, c: ReleaseModel|
            #![trigger lt(a, b), lt(b, c)]
            !lt(a, b) && !lt(b, c) implies !lt(a, c) by {
            lemma_text_lt_total(a.release_type, b.release_type);
            lemma_text_lt_total(b.release_type, c.release_type);
            lemma_text_lt_total(a.release_type, c.release_type);
            lemma_text_lt_total(a.title, b.title);
            lemma_text_lt_total(b.title, c.title);
            lemma_text_lt_total(a.title, c.title);
            if text_lt(c.release_type, b.release_type) && text_lt(b.release_type, a.release_type) {
                lemma_text_lt_transitive(c.release_type, b.release_type, a.release_type);
            }
            if text_lt(c.title, b.title) && text_lt(b.title, a.title) {
                lemma_text_lt_transitive(c.title, b.title, a.title);
            }
        }
    }
    crate::sort::sorting_is_a_permutation(releases, lt);
    sorting_orders(releases, lt);
    let sorted = stable_sorted(releases, lt);
    assert(!lt(sorted[j], sorted[i]));
}

/// Everyone credited on a release or on one of its tracks.
pub open spec fn all_credits(release: ReleaseModel) -> Seq<ArtistRefModel> {
    release.artists + release.featured_artists + track_credits(release.tracks)
}

pub open spec fn goes_by(key: ArtistKeyModel) -> spec_fn(ArtistRefModel) -> bool {
    |artist: ArtistRefModel| artist.key == key
}

pub open spec fn names_someone() -> spec_fn(TrackModel) -> bool {
    |track: TrackModel| track.artists.len() > 0
}

/// The artist a release stands under: the preferred one where they have part in
/// it, else its first, else the first of its tracks.
pub open spec fn primary_artist(release: ReleaseModel, preferred: Option<ArtistKeyModel>) -> Option<
    ArtistRefModel,
> {
    let chosen = match preferred {
        Some(key) => found(all_credits(release), goes_by(key)),
        None => None,
    };
    if chosen is Some {
        chosen
    } else if release.artists.len() > 0 {
        Some(release.artists[0])
    } else {
        match found(release.tracks, names_someone()) {
            Some(track) => Some(track.artists[0]),
            None => None,
        }
    }
}

pub open spec fn main_credit(release: ReleaseModel, preferred: Option<ArtistKeyModel>) -> Seq<
    ArtistRefModel,
> {
    match primary_artist(release, preferred) {
        Some(artist) => seq![artist],
        None => Seq::empty(),
    }
}

/// Everyone else who has part in a release, each once.
pub open spec fn other_credits(release: ReleaseModel, preferred: Option<ArtistKeyModel>) -> Seq<
    ArtistRefModel,
> {
    contributors(
        text_keys(),
        main_credit(release, preferred),
        Seq::empty(),
        all_credits(release),
    )
}

pub(crate) fn find_credit(credits: &Vec<ArtistRef>, key: &ArtistKey) -> (r: Option<ArtistRef>)
    ensures
        opt_view(r) == found(views(credits@), goes_by(key@)),
{
    let ghost all = views(credits@);
    let ghost p = goes_by(key@);
    let mut i: usize = 0;
    while i < credits.len()
        invariant
            i <= credits.len() == all.len(),
            all == views(credits@),
            p == goes_by(key@),
            forall|j: int| 0 <= j < i ==> !p(#[trigger] all[j]),
        decreases credits.len() - i,
    {
        if credits[i].key == *key {
            proof {
                lemma_first_where(all, p, i as int);
            }
            return Some(credits[i].clone());
        }
        i += 1;
    }
    proof {
        lemma_first_where(all, p, i as int);
    }
    None
}

fn first_track_artist(tracks: &Vec<Track>) -> (r: Option<ArtistRef>)
    ensures
        opt_view(r) == (match found(views(tracks@), names_someone()) {
            Some(track) => Some(track.artists[0]),
            None => None,
        }),
{
    let ghost all = views(tracks@);
    let ghost p = names_someone();
    let mut i: usize = 0;
    while i < tracks.len()
        invariant
            i <= tracks.len() == all.len(),
            all == views(tracks@),
            p == names_someone(),
            forall|j: int| 0 <= j < i ==> !p(#[trigger] all[j]),
        decreases tracks.len() - i,
    {
        if tracks[i].artists.len() > 0 {
            proof {
                assert(p(all[i as int]));
                lemma_first_where(all, p, i as int);
            }
            return Some(tracks[i].artists[0].clone());
        }
        assert(!p(all[i as int]));
        i += 1;
    }
    proof {
        lemma_first_where(all, p, i as int);
    }
    None
}

fn credits_of_release(release: &Release) -> (r: Vec<ArtistRef>)
    ensures
        views(r@) == all_credits(release@),
{
    let mut r = release.artists.clone();
    let mut featured = release.featured_artists.clone();
    let mut on_tracks = credits_of(&release.tracks);
    proof {
        assert(views(r@) =~= release@.artists);
        assert(views(featured@) =~= release@.featured_artists);
    }
    r.append(&mut featured);
    r.append(&mut on_tracks);
    proof {
        assert(views(r@) =~= all_credits(release@));
    }
    r
}

/// The artist a release stands under, and everyone else who has part in it.
pub fn release_artist_credits(release: &Release, preferred: Option<&ArtistKey>) -> (r: (
    Vec<ArtistRef>,
    Vec<ArtistRef>,
))
    ensures
        views(r.0@) == main_credit(release@, ref_view(preferred)),
        views(r.1@) == other_credits(release@, ref_view(preferred)),
{
    let credits = credits_of_release(release);
    let chosen = match preferred {
        Some(key) => find_credit(&credits, key),
        None => None,
    };
    let primary = match chosen {
        Some(artist) => Some(artist),
        None => if release.artists.len() > 0 {
            Some(release.artists[0].clone())
        } else {
            first_track_artist(&release.tracks)
        },
    };
    let mut main: Vec<ArtistRef> = Vec::new();
    if let Some(artist) = primary {
        main.push(artist);
    }
    proof {
        assert(views(main@) =~= main_credit(release@, ref_view(preferred)));
    }
    let ghost all = views(credits@);
    let ghost lead = views(main@);
    let mut others: Vec<ArtistRef> = Vec::new();
    let mut rest = credits;
    let ghost mut done: int = 0;
    while rest.len() > 0
        invariant
            0 <= done,
            done + rest.len() == all.len(),
            views(rest@) == all.skip(done),
            lead == views(main@),
            views(others@) == contributors(text_keys(), lead, Seq::empty(), all.take(done)),
        decreases rest.len(),
    {
        let artist = rest.remove(0);
        proof {
            assert(artist@ == all[done]);
            assert(all.take(done + 1).drop_last() =~= all.take(done));
            assert(views(rest@) =~= all.skip(done + 1));
            lemma_credited_in_either(text_keys(), lead, views(others@), artist@.name);
        }
        if !is_named(&main, artist.name.as_str()) && !is_named(&others, artist.name.as_str()) {
            others.push(artist);
        }
        proof {
            done = done + 1;
        }
    }
    proof {
        assert(all.take(done) =~= all);
    }
    (main, others)
}

pub open spec fn plays_locally() -> spec_fn(TrackModel) -> bool {
    |track: TrackModel| track.audio_source is LocalFile
}

/// How much of a release is federated: nothing (0), all of it (1), a part (2).
pub open spec fn federation_share(release: ReleaseModel) -> i32 {
    if release.tracks.len() == 0 {
        if release.source is Federation {
            1
        } else {
            0
        }
    } else {
        let local = kept(release.tracks, plays_locally()).len();
        if local == 0 {
            1
        } else if local == release.tracks.len() {
            0
        } else {
            2
        }
    }
}

pub fn release_federation_state(release: &Release) -> (r: i32)
    ensures
        r == federation_share(release@),
{
    if release.tracks.len() == 0 {
        return match release.source {
            CatalogSource::Federation { .. } => 1,
            CatalogSource::Local => 0,
        };
    }
    let ghost all = views(release.tracks@);
    let mut local: usize = 0;
    let mut i: usize = 0;
    while i < release.tracks.len()
        invariant
            local <= i <= release.tracks.len() == all.len(),
            all == views(release.tracks@),
            local == kept(all.take(i as int), plays_locally()).len(),
        decreases release.tracks.len() - i,
    {
        proof {
            assert(all.take(i + 1).drop_last() =~= all.take(i as int));
        }
        if matches!(release.tracks[i].audio_source, AudioSource::LocalFile(_)) {
            local += 1;
        }
        i += 1;
    }
    proof {
        assert(all.take(i as int) =~= all);
    }
    if local == 0 {
        1
    } else if local == release.tracks.len() {
        0
    } else {
        2
    }
}

} // verus!
